//! The shallow merge of caller-supplied request options over the base
//! upstream request body.
//!
//! An upstream chat request body is a JSON object: the base entries
//! (model, messages, stream) overlaid with the caller's options, where a
//! caller-supplied value wins on any key conflict. The JSON values
//! themselves are opaque here - they are carried through untouched - but
//! which value ends up under which key is verified.

use vstd::prelude::*;

verus! {

#[verifier::external_type_specification]
#[verifier::external_body]
pub struct ExValue(serde_json::Value);

/// Relies on `serde_json::Value::clone`: an exact copy of the value.
#[verifier::external_body]
fn clone_value(v: &serde_json::Value) -> (r: serde_json::Value)
    ensures
        r == *v,
{
    v.clone()
}

/// The value under `key` in an object given as an entry list: the first
/// entry with that key, as JSON object semantics demand.
pub open spec fn spec_lookup(entries: Seq<(String, serde_json::Value)>, key: Seq<char>) -> Option<
    serde_json::Value,
>
    decreases entries.len(),
{
    if entries.len() == 0 {
        None
    } else if entries[0].0@ == key {
        Some(entries[0].1)
    } else {
        spec_lookup(entries.skip(1), key)
    }
}

proof fn lemma_lookup_push(
    entries: Seq<(String, serde_json::Value)>,
    e: (String, serde_json::Value),
    key: Seq<char>,
)
    ensures
        spec_lookup(entries.push(e), key) == (if spec_lookup(entries, key) is Some {
            spec_lookup(entries, key)
        } else if e.0@ == key {
            Some(e.1)
        } else {
            None
        }),
    decreases entries.len(),
{
    if entries.len() == 0 {
        assert(entries.push(e)[0] == e);
        assert(entries.push(e).skip(1) =~= Seq::<(String, serde_json::Value)>::empty());
        assert(spec_lookup(entries, key) is None);
        if e.0@ == key {
            assert(spec_lookup(entries.push(e), key) == Some(e.1));
        } else {
            assert(spec_lookup(entries.push(e), key) == spec_lookup(
                entries.push(e).skip(1),
                key,
            ));
            assert(spec_lookup(entries.push(e), key) is None);
        }
    } else {
        assert(entries.push(e)[0] == entries[0]);
        assert(entries.push(e).skip(1) =~= entries.skip(1).push(e));
        lemma_lookup_push(entries.skip(1), e, key);
        if entries[0].0@ == key {
            assert(spec_lookup(entries.push(e), key) == Some(entries[0].1));
            assert(spec_lookup(entries, key) == Some(entries[0].1));
        } else {
            assert(spec_lookup(entries.push(e), key) == spec_lookup(entries.skip(1).push(e), key));
            assert(spec_lookup(entries, key) == spec_lookup(entries.skip(1), key));
        }
    }
}

proof fn lemma_lookup_at(entries: Seq<(String, serde_json::Value)>, key: Seq<char>, k: int)
    requires
        0 <= k <= entries.len(),
        forall|q: int| 0 <= q < k ==> (#[trigger] entries[q]).0@ != key,
        k == entries.len() || entries[k].0@ == key,
    ensures
        k < entries.len() ==> spec_lookup(entries, key) == Some(entries[k].1),
        k == entries.len() ==> spec_lookup(entries, key) is None,
    decreases k, entries.len(),
{
    if entries.len() == 0 {
    } else if k == 0 {
    } else {
        assert forall|q: int| 0 <= q < k - 1 implies (#[trigger] entries.skip(1)[q]).0@
            != key by {
            assert(entries.skip(1)[q] == entries[q + 1]);
        }
        assert(k - 1 == entries.skip(1).len() || entries.skip(1)[k - 1].0@ == key);
        lemma_lookup_at(entries.skip(1), key, k - 1);
    }
}

/// The value under `key`, copied out of the entry list, or `None` if the
/// key is absent.
fn lookup(entries: &Vec<(String, serde_json::Value)>, key: &String) -> (r: Option<
    serde_json::Value,
>)
    ensures
        match r {
            Some(v) => spec_lookup(entries@, key@) == Some(v),
            None => spec_lookup(entries@, key@) is None,
        },
{
    let n = entries.len();
    let mut i: usize = 0;
    while i < n
        invariant
            0 <= i <= n,
            n == entries@.len(),
            forall|q: int| 0 <= q < i ==> (#[trigger] entries@[q]).0@ != key@,
        decreases n - i,
    {
        if entries[i].0 == *key {
            proof {
                lemma_lookup_at(entries@, key@, i as int);
            }
            return Some(clone_value(&entries[i].1));
        }
        i += 1;
    }
    proof {
        lemma_lookup_at(entries@, key@, n as int);
    }
    None
}

/// Overlays the caller's options on the base request body entries: under
/// every key, the merged object carries the caller's value where the
/// caller supplied one, and the base value otherwise - caller options win
/// on conflicts, and no other keys appear.
pub fn merge_options(
    base: &Vec<(String, serde_json::Value)>,
    opts: &Vec<(String, serde_json::Value)>,
) -> (r: Vec<(String, serde_json::Value)>)
    ensures
        forall|k: Seq<char>| #[trigger] spec_lookup(r@, k) == (if spec_lookup(opts@, k)
            is Some {
            spec_lookup(opts@, k)
        } else {
            spec_lookup(base@, k)
        }),
{
    let mut r: Vec<(String, serde_json::Value)> = Vec::new();
    let nb = base.len();
    let mut i: usize = 0;
    while i < nb
        invariant
            0 <= i <= nb,
            nb == base@.len(),
            forall|k: Seq<char>| #[trigger] spec_lookup(r@, k) == (if spec_lookup(
                base@.take(i as int),
                k,
            ) is Some {
                if spec_lookup(opts@, k) is Some {
                    spec_lookup(opts@, k)
                } else {
                    spec_lookup(base@.take(i as int), k)
                }
            } else {
                None
            }),
        decreases nb - i,
    {
        let ghost r0 = r@;
        let key = base[i].0.clone();
        let entry = match lookup(opts, &key) {
            Some(v) => (key, v),
            None => (key, clone_value(&base[i].1)),
        };
        r.push(entry);
        proof {
            assert(base@.take(i + 1) =~= base@.take(i as int).push(base@[i as int]));
            assert forall|k: Seq<char>| #[trigger] spec_lookup(r@, k) == (if spec_lookup(
                base@.take(i + 1),
                k,
            ) is Some {
                if spec_lookup(opts@, k) is Some {
                    spec_lookup(opts@, k)
                } else {
                    spec_lookup(base@.take(i + 1), k)
                }
            } else {
                None
            }) by {
                lemma_lookup_push(r0, entry, k);
                lemma_lookup_push(base@.take(i as int), base@[i as int], k);
            }
        }
        i += 1;
    }
    proof {
        assert(base@.take(nb as int) =~= base@);
    }
    let no = opts.len();
    let mut j: usize = 0;
    while j < no
        invariant
            0 <= j <= no,
            no == opts@.len(),
            forall|k: Seq<char>| #[trigger] spec_lookup(r@, k) == (if spec_lookup(base@, k)
                is Some {
                if spec_lookup(opts@, k) is Some {
                    spec_lookup(opts@, k)
                } else {
                    spec_lookup(base@, k)
                }
            } else {
                spec_lookup(opts@.take(j as int), k)
            }),
        decreases no - j,
    {
        let ghost r0 = r@;
        let key = opts[j].0.clone();
        let absent = match lookup(base, &key) {
            Some(_) => false,
            None => true,
        };
        if absent {
            let entry = (key, clone_value(&opts[j].1));
            r.push(entry);
            proof {
                assert(opts@.take(j + 1) =~= opts@.take(j as int).push(opts@[j as int]));
                assert forall|k: Seq<char>| #[trigger] spec_lookup(r@, k) == (if spec_lookup(
                    base@,
                    k,
                ) is Some {
                    if spec_lookup(opts@, k) is Some {
                        spec_lookup(opts@, k)
                    } else {
                        spec_lookup(base@, k)
                    }
                } else {
                    spec_lookup(opts@.take(j + 1), k)
                }) by {
                    lemma_lookup_push(r0, entry, k);
                    lemma_lookup_push(opts@.take(j as int), opts@[j as int], k);
                    if k == opts@[j as int].0@ && spec_lookup(base@, k) is None && spec_lookup(
                        opts@.take(j as int),
                        k,
                    ) is None {
                        lemma_lookup_first_is(opts@, k, j as int);
                    }
                }
            }
        } else {
            proof {
                assert(opts@.take(j + 1) =~= opts@.take(j as int).push(opts@[j as int]));
                assert forall|k: Seq<char>| #[trigger] spec_lookup(r@, k) == (if spec_lookup(
                    base@,
                    k,
                ) is Some {
                    if spec_lookup(opts@, k) is Some {
                        spec_lookup(opts@, k)
                    } else {
                        spec_lookup(base@, k)
                    }
                } else {
                    spec_lookup(opts@.take(j + 1), k)
                }) by {
                    lemma_lookup_push(opts@.take(j as int), opts@[j as int], k);
                }
            }
        }
        j += 1;
    }
    proof {
        assert(opts@.take(no as int) =~= opts@);
    }
    r
}

proof fn lemma_lookup_first_is(entries: Seq<(String, serde_json::Value)>, key: Seq<char>, k: int)
    requires
        0 <= k < entries.len(),
        entries[k].0@ == key,
        spec_lookup(entries.take(k), key) is None,
    ensures
        spec_lookup(entries, key) == spec_lookup(entries.take(k + 1), key),
    decreases k,
{
    if k == 0 {
        assert(entries.take(1)[0] == entries[0]);
    } else {
        assert(entries.take(k)[0] == entries[0]);
        assert(entries.take(k).skip(1) =~= entries.skip(1).take(k - 1));
        assert(entries.skip(1)[k - 1] == entries[k]);
        lemma_lookup_first_is(entries.skip(1), key, k - 1);
        assert(entries.take(k + 1)[0] == entries[0]);
        assert(entries.take(k + 1).skip(1) =~= entries.skip(1).take(k));
    }
}

} // verus!
