//! The stream aggregator: folds a drained chunk stream into one
//! concatenated answer for non-streaming callers.
//!
//! The aggregate of a stream is the concatenation, in arrival order, of
//! every chunk's content. A conforming upstream carries no text on its
//! terminal chunk, so on well-formed streams this is exactly the
//! concatenation of the non-terminal chunks' content. The first error item
//! aborts aggregation: the error is surfaced and the partial content
//! gathered so far is discarded.

use vstd::prelude::*;

verus! {

use vstd::string::StringExecFns;
use crate::models::StreamChatChunk;
use crate::providers::ProviderError;

/// What aggregation yields for a drained stream: the concatenated answer,
/// or the first error of the stream.
pub open spec fn spec_aggregate(items: Seq<Result<StreamChatChunk, ProviderError>>) -> Result<
    Seq<char>,
    ProviderError,
>
    decreases items.len(),
{
    if items.len() == 0 {
        Ok(seq![])
    } else {
        match items[0] {
            Err(e) => Err(e),
            Ok(c) => match spec_aggregate(items.skip(1)) {
                Err(e) => Err(e),
                Ok(rest) => Ok(c.message.content@ + rest),
            },
        }
    }
}

/// The concatenated content of the non-terminal chunks of a stream.
pub open spec fn concat_contents(items: Seq<Result<StreamChatChunk, ProviderError>>) -> Seq<char>
    decreases items.len(),
{
    if items.len() == 0 {
        seq![]
    } else {
        (match items[0] {
            Ok(c) => if c.done {
                seq![]
            } else {
                c.message.content@
            },
            Err(_) => seq![],
        }) + concat_contents(items.skip(1))
    }
}

/// Aggregation is the identity projection: on a well-formed stream - one
/// without error items whose terminal chunks carry no text - the aggregate
/// is exactly the concatenation, in order, of every non-terminal chunk's
/// content.
pub proof fn lemma_aggregate_is_projection(items: Seq<Result<StreamChatChunk, ProviderError>>)
    requires
        forall|i: int| 0 <= i < items.len() ==> #[trigger] items[i] is Ok,
        forall|i: int| 0 <= i < items.len() && (#[trigger] items[i])->Ok_0.done
            ==> items[i]->Ok_0.message.content@.len() == 0,
    ensures
        spec_aggregate(items) == Ok::<Seq<char>, ProviderError>(concat_contents(items)),
    decreases items.len(),
{
    if items.len() > 0 {
        assert forall|i: int| 0 <= i < items.skip(1).len() implies #[trigger] items.skip(
            1,
        )[i] is Ok by {
            assert(items.skip(1)[i] == items[i + 1]);
        }
        assert forall|i: int|
            0 <= i < items.skip(1).len() && (#[trigger] items.skip(1)[i])->Ok_0.done implies items.skip(
            1,
        )[i]->Ok_0.message.content@.len() == 0 by {
            assert(items.skip(1)[i] == items[i + 1]);
        }
        lemma_aggregate_is_projection(items.skip(1));
        match items[0] {
            Ok(c) => {
                if c.done {
                    assert(c.message.content@ =~= Seq::<char>::empty());
                    assert(c.message.content@ + concat_contents(items.skip(1)) =~= concat_contents(
                        items.skip(1)));
                    assert(Seq::<char>::empty() + concat_contents(items.skip(1)) =~= concat_contents(
                        items.skip(1)));
                }
            },
            Err(_) => {},
        }
    }
}

/// Drains a collected chunk stream into one answer: the concatenation of
/// every chunk's content in arrival order, or the stream's first error
/// with all partial content discarded.
pub fn aggregate(items: Vec<Result<StreamChatChunk, ProviderError>>) -> (r: Result<
    String,
    ProviderError,
>)
    ensures
        match r {
            Ok(s) => spec_aggregate(items@) == Ok::<Seq<char>, ProviderError>(s@),
            Err(e) => spec_aggregate(items@) == Err::<Seq<char>, ProviderError>(e),
        },
{
    let ghost orig = items@;
    let mut rest = items;
    let mut content = String::new();
    proof {
        assert(orig.skip(0) =~= orig);
    }
    while rest.len() > 0
        invariant
            spec_aggregate(orig) == spec_aggregate(items@),
            match spec_aggregate(rest@) {
                Ok(rest) => spec_aggregate(orig) == Ok::<Seq<char>, ProviderError>(
                    content@ + rest,
                ),
                Err(e) => spec_aggregate(orig) == Err::<Seq<char>, ProviderError>(e),
            },
        decreases rest@.len(),
    {
        let ghost before = rest@;
        let it = rest.remove(0);
        proof {
            assert(rest@ =~= before.skip(1));
        }
        match it {
            Ok(c) => {
                proof {
                    let r = spec_aggregate(rest@);
                    if r is Ok {
                        assert((content@ + c.message.content@) + r->Ok_0 =~= content@ + (
                        c.message.content@ + r->Ok_0));
                    }
                }
                content.append(c.message.content.as_str());
            },
            Err(e) => {
                proof {
                    assert(spec_aggregate(before) == Err::<Seq<char>, ProviderError>(e));
                }
                return Err(e);
            },
        }
    }
    proof {
        assert(content@ + Seq::<char>::empty() =~= content@);
    }
    Ok(content)
}

} // verus!
