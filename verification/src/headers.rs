use vstd::prelude::*;

use crate::ascii::{
    bytes_eq, check_header_value, check_token, header_name_ok, header_value_ok, is_tchar,
    lower_bytes, lower_token, spec_lower_byte, token_ok, utf8_bytes,
};

verus! {

/// An ordered mapping of header names to values. Names are stored
/// ASCII-lowercased; lookups are case-insensitive; writing a name that is
/// already present replaces its value in place (last write wins), so
/// iteration order is first-insertion order.
#[derive(Debug)]
pub struct HeaderTable {
    pub entries: Vec<(String, String)>,
}

impl View for HeaderTable {
    type V = Seq<(Seq<u8>, Seq<u8>)>;

    /// Each entry as the UTF-8 bytes of its name and of its value.
    open spec fn view(&self) -> Seq<(Seq<u8>, Seq<u8>)> {
        self.entries@.map_values(|e: (String, String)| (utf8_bytes(e.0@), utf8_bytes(e.1@)))
    }
}

/// Insertion into the abstract table: replace the value of the first entry
/// carrying `name`, keeping its position, or append a new entry.
pub open spec fn spec_insert(
    t: Seq<(Seq<u8>, Seq<u8>)>,
    name: Seq<u8>,
    value: Seq<u8>,
) -> Seq<(Seq<u8>, Seq<u8>)>
    decreases t.len(),
{
    if t.len() == 0 {
        seq![(name, value)]
    } else if t[0].0 == name {
        seq![(name, value)] + t.skip(1)
    } else {
        seq![t[0]] + spec_insert(t.skip(1), name, value)
    }
}

/// The (name, value) byte pairs of a sequence of string pairs.
pub open spec fn pairs_view(pairs: Seq<(String, String)>) -> Seq<(Seq<u8>, Seq<u8>)> {
    pairs.map_values(|p: (String, String)| (utf8_bytes(p.0@), utf8_bytes(p.1@)))
}

/// Every pair holds a valid header name and a valid header value.
pub open spec fn pairs_ok(pairs: Seq<(Seq<u8>, Seq<u8>)>) -> bool {
    forall|i: int|
        0 <= i < pairs.len() ==> header_name_ok(#[trigger] pairs[i].0) && header_value_ok(
            pairs[i].1,
        )
}

proof fn lemma_spec_insert_found(t: Seq<(Seq<u8>, Seq<u8>)>, name: Seq<u8>, value: Seq<u8>, i: int)
    requires
        0 <= i < t.len(),
        t[i].0 == name,
        forall|j: int| 0 <= j < i ==> (#[trigger] t[j]).0 != name,
    ensures
        spec_insert(t, name, value) =~= t.update(i, (name, value)),
    decreases i,
{
    if i == 0 {
        assert(spec_insert(t, name, value) =~= t.update(0, (name, value)));
    } else {
        assert(t[0].0 != name);
        assert(t.skip(1)[i - 1].0 == name);
        assert(forall|j: int| 0 <= j < i - 1 ==> (#[trigger] t.skip(1)[j]).0 != name);
        lemma_spec_insert_found(t.skip(1), name, value, i - 1);
        assert(spec_insert(t, name, value) =~= t.update(i, (name, value)));
    }
}

proof fn lemma_spec_insert_absent(t: Seq<(Seq<u8>, Seq<u8>)>, name: Seq<u8>, value: Seq<u8>)
    requires
        forall|j: int| 0 <= j < t.len() ==> (#[trigger] t[j]).0 != name,
    ensures
        spec_insert(t, name, value) =~= t.push((name, value)),
    decreases t.len(),
{
    if t.len() == 0 {
        assert(spec_insert(t, name, value) =~= t.push((name, value)));
    } else {
        assert(forall|j: int| 0 <= j < t.skip(1).len() ==> (#[trigger] t.skip(1)[j]).0 != name);
        lemma_spec_insert_absent(t.skip(1), name, value);
        assert(spec_insert(t, name, value) =~= t.push((name, value)));
    }
}

impl HeaderTable {
    /// Well-formed: every stored name is a lowercased valid name, every
    /// value is valid, and no name occurs twice.
    pub open spec fn wf(self) -> bool {
        &&& forall|i: int|
            0 <= i < self@.len() ==> header_name_ok((#[trigger] self@[i]).0) && header_value_ok(
                self@[i].1,
            ) && self@[i].0 == lower_bytes(self@[i].0)
        &&& forall|i: int, j: int| 0 <= i < j < self@.len() ==> self@[i].0 != self@[j].0
    }

    pub fn new() -> (r: HeaderTable)
        ensures
            r.wf(),
            r@ =~= Seq::<(Seq<u8>, Seq<u8>)>::empty(),
    {
        HeaderTable { entries: Vec::new() }
    }

    pub fn len(&self) -> (r: usize)
        ensures
            r == self@.len(),
    {
        self.entries.len()
    }

    /// Sets `name` to `value`, case-insensitively replacing an earlier
    /// value for the same name and otherwise appending.
    pub fn insert(&mut self, name: &str, value: &str)
        requires
            old(self).wf(),
            header_name_ok(utf8_bytes(name@)),
            header_value_ok(utf8_bytes(value@)),
        ensures
            final(self).wf(),
            final(self)@ =~= spec_insert(
                old(self)@,
                lower_bytes(utf8_bytes(name@)),
                utf8_bytes(value@),
            ),
    {
        let lname = lower_token(name);
        let ghost lnb = lower_bytes(utf8_bytes(name@));
        let ghost vb = utf8_bytes(value@);
        proof {
            assert forall|k: int| 0 <= k < lnb.len() implies is_tchar(#[trigger] lnb[k])
                && spec_lower_byte(lnb[k]) == lnb[k] by {
                assert(lnb[k] == spec_lower_byte(utf8_bytes(name@)[k]));
                assert(is_tchar(utf8_bytes(name@)[k]));
            }
            assert(header_name_ok(lnb));
            assert(lower_bytes(lnb) =~= lnb);
        }
        let vstring = value.to_owned();
        let n = self.entries.len();
        let mut i: usize = 0;
        while i < n
            invariant
                n == self@.len(),
                i <= n,
                self.wf(),
                self == old(self),
                utf8_bytes(lname@) == lnb,
                utf8_bytes(vstring@) == vb,
                lnb == lower_bytes(utf8_bytes(name@)),
                vb == utf8_bytes(value@),
                header_name_ok(lnb),
                lower_bytes(lnb) == lnb,
                header_value_ok(vb),
                forall|j: int| 0 <= j < i ==> (#[trigger] self@[j]).0 != lnb,
            decreases n - i,
        {
            let found = bytes_eq(
                self.entries[i].0.as_str().as_bytes(),
                lname.as_str().as_bytes(),
            );
            if found {
                proof {
                    assert(self@[i as int].0 == utf8_bytes(self.entries@[i as int].0@));
                }
                let kept = self.entries[i].0.clone();
                self.entries.remove(i);
                self.entries.insert(i, (kept, vstring));
                proof {
                    let t = old(self)@;
                    let oe = old(self).entries@;
                    assert(t[i as int].0 == lnb);
                    assert(utf8_bytes(kept@) == lnb);
                    assert(self.entries@ =~= oe.update(i as int, (kept, vstring)));
                    assert forall|j: int| 0 <= j < self@.len() implies self@[j] == t.update(
                        i as int,
                        (lnb, vb),
                    )[j] by {
                        assert(self@[j] == (
                            utf8_bytes(self.entries@[j].0@),
                            utf8_bytes(self.entries@[j].1@),
                        ));
                        if j != i as int {
                            assert(self.entries@[j] == oe[j]);
                            assert(t[j] == (utf8_bytes(oe[j].0@), utf8_bytes(oe[j].1@)));
                        }
                    }
                    assert(self@ =~= t.update(i as int, (lnb, vb)));
                    lemma_spec_insert_found(t, lnb, vb, i as int);
                    assert(self@ =~= spec_insert(t, lnb, vb));
                    assert forall|a: int, b: int|
                        0 <= a < b < self@.len() implies self@[a].0 != self@[b].0 by {
                        assert(self@[a] == t.update(i as int, (lnb, vb))[a]);
                        assert(self@[b] == t.update(i as int, (lnb, vb))[b]);
                        assert(t[a].0 != t[b].0);
                    }
                    assert(self.wf());
                }
                return ;
            }
            i += 1;
        }
        self.entries.push((lname, vstring));
        proof {
            let t = old(self)@;
            assert(self@ =~= t.push((lnb, vb)));
            lemma_spec_insert_absent(t, lnb, vb);
            assert(self.wf()) by {
                assert(forall|j: int| 0 <= j < t.len() ==> (#[trigger] self@[j]) == t[j]);
            }
        }
    }

    /// A copy holding equal names and values.
    pub fn duplicate(&self) -> (r: HeaderTable)
        ensures
            r@ =~= self@,
    {
        let mut entries: Vec<(String, String)> = Vec::new();
        let n = self.entries.len();
        let mut i: usize = 0;
        while i < n
            invariant
                n == self.entries@.len(),
                i <= n,
                entries@.len() == i,
                forall|j: int|
                    0 <= j < i ==> utf8_bytes((#[trigger] entries@[j]).0@) == self@[j].0
                        && utf8_bytes(entries@[j].1@) == self@[j].1,
            decreases n - i,
        {
            entries.push((self.entries[i].0.clone(), self.entries[i].1.clone()));
            proof {
                assert(self@[i as int] == (
                    utf8_bytes(self.entries@[i as int].0@),
                    utf8_bytes(self.entries@[i as int].1@),
                ));
            }
            i += 1;
        }
        let r = HeaderTable { entries };
        proof {
            assert forall|j: int| 0 <= j < r@.len() implies r@[j] == self@[j] by {
                assert(r@[j] == (utf8_bytes(r.entries@[j].0@), utf8_bytes(r.entries@[j].1@)));
            }
        }
        r
    }

    /// Case-insensitive lookup; returns the stored value of the first
    /// entry whose name matches.
    pub fn get(&self, name: &str) -> (r: Option<&String>)
        requires
            self.wf(),
            token_ok(utf8_bytes(name@)),
        ensures
            match r {
                Some(v) => exists|i: int|
                    0 <= i < self@.len() && (#[trigger] self@[i]).0 == lower_bytes(
                        utf8_bytes(name@),
                    ) && utf8_bytes(v@) == self@[i].1,
                None => forall|i: int|
                    0 <= i < self@.len() ==> (#[trigger] self@[i]).0 != lower_bytes(
                        utf8_bytes(name@),
                    ),
            },
    {
        let lname = lower_token(name);
        let n = self.entries.len();
        let mut i: usize = 0;
        while i < n
            invariant
                n == self@.len(),
                i <= n,
                self.wf(),
                utf8_bytes(lname@) == lower_bytes(utf8_bytes(name@)),
                forall|j: int|
                    0 <= j < i ==> (#[trigger] self@[j]).0 != lower_bytes(utf8_bytes(name@)),
            decreases n - i,
        {
            if bytes_eq(self.entries[i].0.as_str().as_bytes(), lname.as_str().as_bytes()) {
                proof {
                    assert(self@[i as int].0 == utf8_bytes(self.entries@[i as int].0@));
                    assert(self@[i as int].1 == utf8_bytes(self.entries@[i as int].1@));
                    assert(self@[i as int].0 == lower_bytes(utf8_bytes(name@)));
                }
                return Some(&self.entries[i].1);
            }
            i += 1;
        }
        None
    }

    /// Inserts every pair in order; fails on the first invalid name or
    /// value without touching the table further.
    pub fn insert_all(&mut self, pairs: &Vec<(String, String)>) -> (r: bool)
        requires
            old(self).wf(),
        ensures
            final(self).wf(),
            r == pairs_ok(pairs_view(pairs@)),
            r ==> final(self)@ =~= spec_insert_all(old(self)@, pairs_view(pairs@)),
    {
        let n = pairs.len();
        let mut i: usize = 0;
        while i < n
            invariant
                n == pairs@.len(),
                i <= n,
                self.wf(),
                forall|j: int|
                    0 <= j < i ==> header_name_ok((#[trigger] pairs_view(pairs@)[j]).0)
                        && header_value_ok(pairs_view(pairs@)[j].1),
                self@ =~= spec_insert_all(old(self)@, pairs_view(pairs@).take(i as int)),
            decreases n - i,
        {
            let name_ok = check_token(pairs[i].0.as_str());
            let value_ok = check_header_value(pairs[i].1.as_str());
            if !(name_ok && value_ok) {
                proof {
                    assert(!pairs_ok(pairs_view(pairs@))) by {
                        assert(pairs_view(pairs@)[i as int].0 == utf8_bytes(
                            pairs@[i as int].0@,
                        ));
                    }
                }
                return false;
            }
            self.insert(pairs[i].0.as_str(), pairs[i].1.as_str());
            proof {
                assert(pairs_view(pairs@).take(i as int + 1).drop_last() =~= pairs_view(
                    pairs@,
                ).take(i as int));
                assert(self@ =~= spec_insert_all(
                    old(self)@,
                    pairs_view(pairs@).take(i as int + 1),
                ));
            }
            i += 1;
        }
        proof {
            assert(pairs_view(pairs@).take(n as int) =~= pairs_view(pairs@));
        }
        true
    }
}

/// The table after inserting the given byte pairs, in order, into `t`.
pub open spec fn spec_insert_all(
    t: Seq<(Seq<u8>, Seq<u8>)>,
    pairs: Seq<(Seq<u8>, Seq<u8>)>,
) -> Seq<(Seq<u8>, Seq<u8>)>
    decreases pairs.len(),
{
    if pairs.len() == 0 {
        t
    } else {
        spec_insert(
            spec_insert_all(t, pairs.drop_last()),
            lower_bytes(pairs.last().0),
            pairs.last().1,
        )
    }
}

} // verus!
