use vstd::prelude::*;
use vstd::string::StringExecFns;

verus! {

/// The schema document: the library's own model of the declarative
/// description a schema author writes (a nested mapping/sequence document).
/// Mappings keep their entries in declaration order; lookups return the
/// first binding of a key.
#[derive(Debug)]
pub enum Yaml {
    /// A scalar entry, held as its text (type tags, field names).
    Scalar(String),
    /// A sequence of nested documents.
    Array(Vec<Yaml>),
    /// A mapping from keys to nested documents, in declaration order.
    Hash(Vec<(String, Yaml)>),
}

/// First value bound to `key` in `ps`, scanning in declaration order.
pub open spec fn spec_lookup(ps: Seq<(String, Yaml)>, key: Seq<char>) -> Option<Yaml>
    decreases ps.len(),
{
    if ps.len() == 0 {
        None
    } else if ps[0].0@ == key {
        Some(ps[0].1)
    } else {
        spec_lookup(ps.drop_first(), key)
    }
}

impl Yaml {
    /// First value bound to `key`, if `self` is a mapping holding one.
    pub open spec fn spec_get(&self, key: Seq<char>) -> Option<Yaml> {
        match self {
            Yaml::Hash(ps) => spec_lookup(ps@, key),
            _ => None,
        }
    }

    /// The first key/value entry, if `self` is a non-empty mapping.
    pub open spec fn spec_first(&self) -> Option<(String, Yaml)> {
        match self {
            Yaml::Hash(ps) => if ps@.len() > 0 {
                Some(ps@[0])
            } else {
                None
            },
            _ => None,
        }
    }

    /// Looks `key` up in a mapping document; `None` on any other shape or
    /// when the key is absent.
    pub fn get<'a>(&'a self, key: &str) -> (r: Option<&'a Yaml>)
        ensures
            match r {
                Some(y) => self.spec_get(key@) == Some(*y),
                None => self.spec_get(key@) is None,
            },
    {
        match self {
            Yaml::Hash(ps) => {
                let n = ps.len();
                let mut i: usize = 0;
                proof {
                    assert(ps@.skip(0) =~= ps@);
                }
                while i < n
                    invariant
                        *self is Hash,
                        self->Hash_0 == *ps,
                        n == ps@.len(),
                        i <= n,
                        spec_lookup(ps@, key@) == spec_lookup(ps@.skip(i as int), key@),
                    decreases n - i,
                {
                    let pair = &ps[i];
                    proof {
                        let s = ps@.skip(i as int);
                        assert(s.len() == n - i);
                        assert(s[0] == ps@[i as int]);
                        assert(s.drop_first() =~= ps@.skip(i + 1));
                    }
                    if str_eq(pair.0.as_str(), key) {
                        proof {
                            let s = ps@.skip(i as int);
                            assert(s[0] == ps@[i as int]);
                            assert(*pair == ps@[i as int]);
                            assert(pair.0@ == key@);
                            assert(spec_lookup(s, key@) == Some(s[0].1));
                        }
                        return Some(&pair.1);
                    }
                    i = i + 1;
                }
                proof {
                    assert(ps@.skip(n as int).len() == 0);
                }
                None
            },
            _ => None,
        }
    }

    /// The first key/value entry of a mapping document; `None` on any other
    /// shape or on an empty mapping.
    pub fn first_entry<'a>(&'a self) -> (r: Option<(&'a String, &'a Yaml)>)
        ensures
            match r {
                Some(kv) => self.spec_first() == Some((*kv.0, *kv.1)),
                None => self.spec_first() is None,
            },
    {
        match self {
            Yaml::Hash(ps) => {
                if ps.len() > 0 {
                    let pair = &ps[0];
                    Some((&pair.0, &pair.1))
                } else {
                    None
                }
            },
            _ => None,
        }
    }
}

/// A value found by `spec_lookup` sits below the sequence it was found in,
/// so recursion into it terminates.
pub proof fn lemma_lookup_decreases(ps: Seq<(String, Yaml)>, key: Seq<char>)
    ensures
        match spec_lookup(ps, key) {
            Some(y) => decreases_to!(ps => y),
            None => true,
        },
    decreases ps.len(),
{
    if ps.len() > 0 {
        if ps[0].0@ == key {
            assert(decreases_to!(ps => ps[0]));
            assert(decreases_to!(ps[0] => ps[0].1));
        } else {
            lemma_lookup_decreases(ps.drop_first(), key);
            assert(ps.drop_first() =~= ps.subrange(1, ps.len() as int));
            assert(decreases_to!(ps => ps.subrange(1, ps.len() as int)));
        }
    }
}

/// A value found by `spec_get` sits below the document it was found in.
pub proof fn lemma_get_decreases(d: Yaml, key: Seq<char>)
    ensures
        match d.spec_get(key) {
            Some(y) => decreases_to!(d => y),
            None => true,
        },
{
    match d {
        Yaml::Hash(ps) => {
            lemma_lookup_decreases(ps@, key);
            assert(decreases_to!(d => d->Hash_0));
            assert(decreases_to!(d->Hash_0 => d->Hash_0@));
        },
        _ => {},
    }
}

/// The first entry of a mapping sits below the document itself.
pub proof fn lemma_first_decreases(d: Yaml)
    ensures
        match d.spec_first() {
            Some(kv) => decreases_to!(d => kv.1),
            None => true,
        },
{
    match d {
        Yaml::Hash(ps) => {
            if ps@.len() > 0 {
                assert(decreases_to!(d => d->Hash_0));
                assert(decreases_to!(d->Hash_0 => d->Hash_0@));
                assert(decreases_to!(d->Hash_0@ => d->Hash_0@[0]));
                assert(decreases_to!(d->Hash_0@[0] => d->Hash_0@[0].1));
            }
        },
        _ => {},
    }
}

/// Text equality of two string slices, stated over their character views.
pub fn str_eq(a: &str, b: &str) -> (r: bool)
    ensures
        r == (a@ == b@),
{
    let sa = String::from_str(a);
    let sb = String::from_str(b);
    sa == sb
}

} // verus!
