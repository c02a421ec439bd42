use vstd::prelude::*;
use vstd::string::*;

verus! {

/// Compares two strings character by character.
pub fn text_eq(a: &str, b: &str) -> (r: bool)
    ensures
        r == (a@ == b@),
{
    let n = a.unicode_len();
    if n != b.unicode_len() {
        return false;
    }
    let mut i: usize = 0;
    while i < n
        invariant
            i <= n,
            n == a@.len(),
            n == b@.len(),
            forall|j: int| 0 <= j < i ==> a@[j] == b@[j],
        decreases n - i,
    {
        if a.get_char(i) != b.get_char(i) {
            return false;
        }
        i = i + 1;
    }
    assert(a@ =~= b@);
    true
}

/// Pairs of a key and a value, in order.
pub type Fields = Seq<(Seq<char>, Seq<char>)>;

/// No key stands twice.
pub open spec fn keys_unique(s: Fields) -> bool {
    forall|i: int, j: int| 0 <= i < s.len() && 0 <= j < s.len() && i != j ==> s[i].0 != s[j].0
}

pub open spec fn has_key(s: Fields, k: Seq<char>) -> bool {
    exists|i: int| 0 <= i < s.len() && s[i].0 == k
}

/// The position of key `k`, where it stands.
pub open spec fn key_position(s: Fields, k: Seq<char>) -> int {
    choose|i: int| 0 <= i < s.len() && s[i].0 == k
}

/// The value that `k` has in `s`, if any.
pub open spec fn field_value(s: Fields, k: Seq<char>) -> Option<Seq<char>> {
    if has_key(s, k) {
        Some(s[key_position(s, k)].1)
    } else {
        None
    }
}

/// `s` with `k` set to `v`: in place where `k` stands, else at the end.
pub open spec fn with_field(s: Fields, k: Seq<char>, v: Seq<char>) -> Fields {
    if has_key(s, k) {
        s.update(key_position(s, k), (k, v))
    } else {
        s.push((k, v))
    }
}

/// `s` without the field `k`.
pub open spec fn without_field(s: Fields, k: Seq<char>) -> Fields {
    if has_key(s, k) {
        s.remove(key_position(s, k))
    } else {
        s
    }
}

/// The fields of a JSON object in order, each key once: a key and the
/// compact JSON text of its value.
#[derive(Debug)]
pub struct FieldMap {
    fields: Vec<(String, String)>,
}

impl View for FieldMap {
    type V = Fields;

    closed spec fn view(&self) -> Fields {
        self.fields.deep_view()
    }
}

impl FieldMap {
    #[verifier::type_invariant]
    closed spec fn inv(&self) -> bool {
        keys_unique(self.fields.deep_view())
    }

    /// A copy of the map.
    pub fn cloned(&self) -> (r: FieldMap)
        ensures
            r@ == self@,
            keys_unique(r@),
    {
        proof {
            use_type_invariant(self);
        }
        let n = self.fields.len();
        let mut fs: Vec<(String, String)> = Vec::new();
        let mut i: usize = 0;
        while i < n
            invariant
                i <= n,
                n == self@.len(),
                fs@.len() == i,
                forall|j: int| 0 <= j < i ==> #[trigger] fs@[j].0@ == self@[j].0 && fs@[j].1@ == self@[j].1,
            decreases n - i,
        {
            let k = self.fields[i].0.clone();
            let v = self.fields[i].1.clone();
            proof {
                assert(self@[i as int] == (k@, v@));
            }
            fs.push((k, v));
            i = i + 1;
        }
        assert(fs.deep_view() =~= self@);
        FieldMap { fields: fs }
    }

    /// The empty object.
    pub fn new() -> (r: FieldMap)
        ensures
            r@ == Seq::<(Seq<char>, Seq<char>)>::empty(),
            keys_unique(r@),
    {
        let r = FieldMap { fields: Vec::new() };
        assert(r@ =~= Seq::<(Seq<char>, Seq<char>)>::empty());
        r
    }

    /// The fields, in order.
    pub fn fields(&self) -> (r: &Vec<(String, String)>)
        ensures
            r.deep_view() == self@,
            keys_unique(self@),
    {
        proof {
            use_type_invariant(self);
        }
        &self.fields
    }

    /// Where key `k` stands, if it does.
    pub fn position(&self, k: &str) -> (r: Option<usize>)
        ensures
            r is None <==> !has_key(self@, k@),
            r is Some ==> r->0 == key_position(self@, k@),
    {
        proof {
            use_type_invariant(self);
        }
        let n = self.fields.len();
        let mut i: usize = 0;
        while i < n
            invariant
                i <= n,
                n == self@.len(),
                keys_unique(self@),
                forall|j: int| 0 <= j < i ==> self@[j].0 != k@,
            decreases n - i,
        {
            if text_eq(self.fields[i].0.as_str(), k) {
                proof {
                    assert(self@[i as int].0 == k@);
                    let p = key_position(self@, k@);
                    assert(self@[p].0 == k@);
                    if p != i as int {
                        assert(self@[p].0 != self@[i as int].0);
                    }
                }
                return Some(i);
            }
            i = i + 1;
        }
        None
    }

    /// The value of `k`.
    pub fn get(&self, k: &str) -> (r: Option<&String>)
        ensures
            r is None <==> field_value(self@, k@) is None,
            r is Some ==> field_value(self@, k@) == Some(r->0@),
    {
        proof {
            use_type_invariant(self);
        }
        match self.position(k) {
            Some(i) => Some(&self.fields[i].1),
            None => None,
        }
    }

    /// Sets `k` to `v`, replacing the value it had.
    pub fn set(&mut self, k: String, v: String)
        ensures
            final(self)@ == with_field(old(self)@, k@, v@),
            keys_unique(old(self)@),
            keys_unique(final(self)@),
    {
        proof {
            use_type_invariant(&*self);
        }
        let ghost s = self@;
        match self.position(k.as_str()) {
            Some(i) => {
                let mut fs: Vec<(String, String)> = Vec::new();
                std::mem::swap(&mut fs, &mut self.fields);
                fs.set(i, (k, v));
                assert(fs.deep_view() =~= s.update(i as int, (k@, v@)));
                std::mem::swap(&mut fs, &mut self.fields);
            },
            None => {
                let mut fs: Vec<(String, String)> = Vec::new();
                std::mem::swap(&mut fs, &mut self.fields);
                fs.push((k, v));
                assert(fs.deep_view() =~= s.push((k@, v@)));
                std::mem::swap(&mut fs, &mut self.fields);
            },
        }
    }

    /// Removes the field `k`, if it is there.
    pub fn remove(&mut self, k: &str)
        ensures
            final(self)@ == without_field(old(self)@, k@),
            keys_unique(old(self)@),
            keys_unique(final(self)@),
    {
        proof {
            use_type_invariant(&*self);
        }
        let ghost s = self@;
        match self.position(k) {
            Some(i) => {
                let mut fs: Vec<(String, String)> = Vec::new();
                std::mem::swap(&mut fs, &mut self.fields);
                fs.remove(i);
                assert(fs.deep_view() =~= s.remove(i as int));
                std::mem::swap(&mut fs, &mut self.fields);
            },
            None => {},
        }
    }

    /// The map that setting each pair in turn makes of the empty map: where
    /// a key stands twice, its last value holds.
    pub fn from_pairs(pairs: Vec<(String, String)>) -> (r: FieldMap)
        ensures
            r@ == with_fields(Seq::empty(), pairs.deep_view()),
            keys_unique(r@),
    {
        let mut r = FieldMap::new();
        let n = pairs.len();
        let mut i: usize = 0;
        while i < n
            invariant
                i <= n,
                n == pairs.len(),
                r@ == with_fields(Seq::empty(), pairs.deep_view().subrange(0, i as int)),
                keys_unique(r@),
            decreases n - i,
        {
            let k = pairs[i].0.clone();
            let v = pairs[i].1.clone();
            r.set(k, v);
            proof {
                let next = pairs.deep_view().subrange(0, i + 1);
                assert(next.drop_last() =~= pairs.deep_view().subrange(0, i as int));
            }
            i = i + 1;
        }
        assert(pairs.deep_view().subrange(0, n as int) =~= pairs.deep_view());
        r
    }
}

/// `s` with each pair of `pairs` set in turn.
pub open spec fn with_fields(s: Fields, pairs: Fields) -> Fields
    decreases pairs.len(),
{
    if pairs.len() == 0 {
        s
    } else {
        let p = pairs.last();
        with_field(with_fields(s, pairs.drop_last()), p.0, p.1)
    }
}

/// Setting a key gives it the value set, keeps each other key's value, and
/// keeps keys unique.
pub proof fn lemma_with_field(s: Fields, k: Seq<char>, v: Seq<char>)
    requires
        keys_unique(s),
    ensures
        keys_unique(with_field(s, k, v)),
        field_value(with_field(s, k, v), k) == Some(v),
        forall|k2: Seq<char>| k2 != k ==> #[trigger] field_value(with_field(s, k, v), k2) == field_value(s, k2),
{
    let t = with_field(s, k, v);
    if has_key(s, k) {
        let p = key_position(s, k);
        assert(t == s.update(p, (k, v)));
        assert(keys_unique(t));
    } else {
        assert(t == s.push((k, v)));
        assert(keys_unique(t));
    }
    assert(t[(t.len() - 1) as int].0 == k || has_key(s, k));
    assert(has_key(t, k)) by {
        if has_key(s, k) {
            let p = key_position(s, k);
            assert(t[p].0 == k);
        } else {
            assert(t[s.len() as int].0 == k);
        }
    }
    let q = key_position(t, k);
    assert(t[q] == (k, v)) by {
        if has_key(s, k) {
            let p = key_position(s, k);
            assert(t[p].0 == k);
            if q != p {
                assert(t[q].0 != t[p].0);
            }
        } else {
            assert(t[s.len() as int].0 == k);
            if q != s.len() as int {
                assert(t[q].0 != t[s.len() as int].0);
            }
        }
    }
    assert forall|k2: Seq<char>| k2 != k implies #[trigger] field_value(t, k2) == field_value(s, k2) by {
        if has_key(s, k2) {
            let p2 = key_position(s, k2);
            assert(t[p2] == s[p2]);
            assert(has_key(t, k2));
            let q2 = key_position(t, k2);
            if q2 != p2 {
                assert(t[q2].0 != t[p2].0);
            }
        } else {
            if has_key(t, k2) {
                let q2 = key_position(t, k2);
                if q2 < s.len() {
                    assert(s[q2].0 == k2);
                }
            }
        }
    }
}

/// Removing a key leaves no field with that key, keeps every other key, and
/// keeps keys unique.
pub proof fn lemma_without_field(s: Fields, k: Seq<char>)
    requires
        keys_unique(s),
    ensures
        keys_unique(without_field(s, k)),
        !has_key(without_field(s, k), k),
        forall|k2: Seq<char>| k2 != k ==> (#[trigger] has_key(without_field(s, k), k2) <==> has_key(s, k2)),
{
    if has_key(s, k) {
        let p = key_position(s, k);
        let t = s.remove(p);
        assert(t == without_field(s, k));
        assert forall|i: int| 0 <= i < t.len() implies #[trigger] t[i] == (if i < p { s[i] } else { s[i + 1] }) by {}
        assert(keys_unique(t)) by {
            assert forall|i: int, j: int| 0 <= i < t.len() && 0 <= j < t.len() && i != j implies t[i].0 != t[j].0 by {
                let si = if i < p { i } else { i + 1 };
                let sj = if j < p { j } else { j + 1 };
                assert(t[i] == s[si]);
                assert(t[j] == s[sj]);
            }
        }
        assert(!has_key(t, k)) by {
            if has_key(t, k) {
                let i = choose|i: int| 0 <= i < t.len() && t[i].0 == k;
                let si = if i < p { i } else { i + 1 };
                assert(t[i] == s[si]);
                assert(s[si].0 != s[p].0);
            }
        }
        assert forall|k2: Seq<char>| k2 != k implies (#[trigger] has_key(t, k2) <==> has_key(s, k2)) by {
            if has_key(s, k2) {
                let j = choose|j: int| 0 <= j < s.len() && s[j].0 == k2;
                assert(j != p);
                let tj = if j < p { j } else { j - 1 };
                assert(t[tj] == s[j]);
            }
            if has_key(t, k2) {
                let i = choose|i: int| 0 <= i < t.len() && t[i].0 == k2;
                let si = if i < p { i } else { i + 1 };
                assert(t[i] == s[si]);
            }
        }
    }
}

} // verus!
