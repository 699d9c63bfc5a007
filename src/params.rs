//! Typed parameter values, string-keyed tables with unique keys, and the
//! rendering of a parameter set as command-line flags.

use vstd::prelude::*;
use crate::text::{bool_text, i64_text, int_text, str_eq};

verus! {

/// A table from text keys to values, with unique keys, kept in insertion order.
#[derive(Debug)]
pub struct Dict<V> {
    entries: Vec<(String, V)>,
}

pub open spec fn entries_view<V>(s: Seq<(String, V)>) -> Seq<(Seq<char>, V)> {
    s.map_values(|e: (String, V)| (e.0@, e.1))
}

pub open spec fn keys_of<V>(s: Seq<(Seq<char>, V)>) -> Seq<Seq<char>> {
    s.map_values(|e: (Seq<char>, V)| e.0)
}

pub open spec fn has_key<V>(s: Seq<(Seq<char>, V)>, k: Seq<char>) -> bool {
    exists|i: int| 0 <= i < s.len() && (#[trigger] s[i]).0 == k
}

pub open spec fn index_of<V>(s: Seq<(Seq<char>, V)>, k: Seq<char>) -> int {
    choose|i: int| 0 <= i < s.len() && (#[trigger] s[i]).0 == k
}

/// The value stored under `k`, if any.
pub open spec fn lookup<V>(s: Seq<(Seq<char>, V)>, k: Seq<char>) -> Option<V> {
    if has_key(s, k) {
        Some(s[index_of(s, k)].1)
    } else {
        None
    }
}

/// Keys are pairwise distinct.
pub open spec fn unique_keys<V>(s: Seq<(Seq<char>, V)>) -> bool {
    forall|i: int, j: int| 0 <= i < s.len() && 0 <= j < s.len() && i != j ==> s[i].0 != s[j].0
}

/// Setting `k` to `v`: in place when present, appended otherwise.
pub open spec fn insert_spec<V>(s: Seq<(Seq<char>, V)>, k: Seq<char>, v: V) -> Seq<(Seq<char>, V)> {
    if has_key(s, k) {
        s.update(index_of(s, k), (k, v))
    } else {
        s.push((k, v))
    }
}

/// Dropping `k` when present.
pub open spec fn remove_spec<V>(s: Seq<(Seq<char>, V)>, k: Seq<char>) -> Seq<(Seq<char>, V)> {
    if has_key(s, k) {
        s.remove(index_of(s, k))
    } else {
        s
    }
}

impl<V> View for Dict<V> {
    type V = Seq<(Seq<char>, V)>;

    closed spec fn view(&self) -> Seq<(Seq<char>, V)> {
        entries_view(self.entries@)
    }
}

proof fn lemma_lookup_at<V>(s: Seq<(Seq<char>, V)>, i: int)
    requires
        unique_keys(s),
        0 <= i < s.len(),
    ensures
        has_key(s, s[i].0),
        index_of(s, s[i].0) == i,
        lookup(s, s[i].0) == Some(s[i].1),
{
    assert(has_key(s, s[i].0));
}

impl<V> Dict<V> {
    pub open spec fn wf(&self) -> bool {
        unique_keys(self@)
    }

    /// An empty table.
    pub fn new() -> (r: Self)
        ensures
            r@ == Seq::<(Seq<char>, V)>::empty(),
            r.wf(),
    {
        let r = Dict { entries: Vec::new() };
        assert(r@ =~= Seq::<(Seq<char>, V)>::empty());
        r
    }

    /// A table holding the given pairs in order; keys must be distinct.
    pub fn from_entries(entries: Vec<(String, V)>) -> (r: Self)
        requires
            unique_keys(entries_view(entries@)),
        ensures
            r@ == entries_view(entries@),
            r.wf(),
    {
        Dict { entries }
    }

    /// The pairs, in order.
    pub fn into_entries(self) -> (r: Vec<(String, V)>)
        ensures
            entries_view(r@) == self@,
    {
        self.entries
    }

    pub fn len(&self) -> (r: usize)
        ensures
            r == self@.len(),
    {
        self.entries.len()
    }

    pub fn key_at(&self, i: usize) -> (r: &String)
        requires
            i < self@.len(),
        ensures
            r@ == self@[i as int].0,
    {
        &self.entries[i].0
    }

    pub fn value_at(&self, i: usize) -> (r: &V)
        requires
            i < self@.len(),
        ensures
            *r == self@[i as int].1,
    {
        &self.entries[i].1
    }

    /// Position of `key`, if present.
    pub fn find(&self, key: &str) -> (r: Option<usize>)
        requires
            self.wf(),
        ensures
            match r {
                Some(i) => i < self@.len() && self@[i as int].0 == key@ && index_of(self@, key@)
                    == i,
                None => !has_key(self@, key@),
            },
    {
        let mut i: usize = 0;
        while i < self.entries.len()
            invariant
                i <= self.entries@.len(),
                self.wf(),
                forall|j: int| 0 <= j < i ==> self@[j].0 != key@,
            decreases self.entries@.len() - i,
        {
            if str_eq(self.entries[i].0.as_str(), key) {
                proof {
                    lemma_lookup_at(self@, i as int);
                }
                return Some(i);
            }
            i = i + 1;
        }
        None
    }

    /// The value under `key`, if present.
    pub fn get(&self, key: &str) -> (r: Option<&V>)
        requires
            self.wf(),
        ensures
            match r {
                Some(v) => lookup(self@, key@) == Some(*v),
                None => lookup(self@, key@) is None,
            },
    {
        match self.find(key) {
            Some(i) => {
                proof {
                    lemma_lookup_at(self@, i as int);
                }
                Some(&self.entries[i].1)
            },
            None => None,
        }
    }

    pub fn contains_key(&self, key: &str) -> (r: bool)
        requires
            self.wf(),
        ensures
            r == has_key(self@, key@),
    {
        self.find(key).is_some()
    }

    /// Sets `key` to `value`, in place when the key is present.
    pub fn insert(&mut self, key: String, value: V)
        requires
            old(self).wf(),
        ensures
            final(self).wf(),
            final(self)@ == insert_spec(old(self)@, key@, value),
    {
        match self.find(key.as_str()) {
            Some(i) => {
                let ghost k = key@;
                self.entries.remove(i);
                self.entries.insert(i, (key, value));
                assert(self@ =~= insert_spec(old(self)@, k, value));
            },
            None => {
                let ghost k = key@;
                self.entries.push((key, value));
                assert(self@ =~= insert_spec(old(self)@, k, value));
                assert(self.wf()) by {
                    assert forall|i: int, j: int|
                        0 <= i < self@.len() && 0 <= j < self@.len() && i != j implies self@[i].0
                        != self@[j].0 by {
                        if i < old(self)@.len() && j < old(self)@.len() {
                        } else if i == old(self)@.len() {
                            assert(old(self)@[j].0 != k);
                        } else {
                            assert(old(self)@[i].0 != k);
                        }
                    }
                }
            },
        }
    }

    /// Removes `key` when present.
    pub fn remove(&mut self, key: &str)
        requires
            old(self).wf(),
        ensures
            final(self).wf(),
            final(self)@ == remove_spec(old(self)@, key@),
    {
        match self.find(key) {
            Some(i) => {
                self.entries.remove(i);
                assert(self@ =~= remove_spec(old(self)@, key@));
                assert(self.wf()) by {
                    assert forall|a: int, b: int|
                        0 <= a < self@.len() && 0 <= b < self@.len() && a != b implies self@[a].0
                        != self@[b].0 by {
                        let oa = if a < i {
                            a
                        } else {
                            a + 1
                        };
                        let ob = if b < i {
                            b
                        } else {
                            b + 1
                        };
                        assert(self@[a] == old(self)@[oa]);
                        assert(self@[b] == old(self)@[ob]);
                    }
                }
            },
            None => {},
        }
    }
}

/// A typed parameter value. A floating-point value is held as the decimal
/// text that the configuration gave for it.
#[derive(Debug)]
pub enum ParamValue {
    Int(i64),
    Float(String),
    Bool(bool),
    Str(String),
}

impl ParamValue {
    /// The text form of the value.
    pub open spec fn text(&self) -> Seq<char> {
        match self {
            ParamValue::Int(i) => int_text(*i as int),
            ParamValue::Float(t) => t@,
            ParamValue::Bool(b) => if *b {
                "true"@
            } else {
                "false"@
            },
            ParamValue::Str(s) => s@,
        }
    }

    /// The text of a string value; empty for any other kind.
    pub open spec fn path_text(&self) -> Seq<char> {
        match self {
            ParamValue::Str(s) => s@,
            _ => Seq::empty(),
        }
    }

    /// The value as a filesystem path: the text of a string value, empty
    /// for any other kind.
    pub fn to_path_buf(&self) -> (r: String)
        ensures
            r@ == self.path_text(),
    {
        match self {
            ParamValue::Str(s) => s.clone(),
            _ => String::new(),
        }
    }

    /// The text form of the value.
    pub fn to_string(&self) -> (r: String)
        ensures
            r@ == self.text(),
    {
        match self {
            ParamValue::Str(s) => s.clone(),
            ParamValue::Int(i) => i64_text(*i),
            ParamValue::Float(t) => t.clone(),
            ParamValue::Bool(b) => bool_text(*b),
        }
    }

    /// The integer of an integer value; zero for any other kind.
    pub fn to_int(&self) -> (r: i64)
        ensures
            r == (match self {
                ParamValue::Int(i) => *i,
                _ => 0,
            }),
    {
        match self {
            ParamValue::Int(i) => *i,
            _ => 0,
        }
    }

    /// The flag of a boolean value; false for any other kind.
    pub fn to_bool(&self) -> (r: bool)
        ensures
            r == (match self {
                ParamValue::Bool(b) => *b,
                _ => false,
            }),
    {
        match self {
            ParamValue::Bool(b) => *b,
            _ => false,
        }
    }
}

/// Flag prefix: one dash for keys of at most two characters, two otherwise.
pub open spec fn flag_prefix(k: Seq<char>) -> Seq<char> {
    if k.len() > 2 {
        "--"@
    } else {
        "-"@
    }
}

/// Keys whose value follows an `=` instead of a space.
pub open spec fn is_equals_key(k: Seq<char>) -> bool {
    k == "secondary"@
}

pub open spec fn flag_separator(k: Seq<char>) -> Seq<char> {
    if is_equals_key(k) {
        "="@
    } else {
        " "@
    }
}

/// One rendered argument: prefix, key, separator, value text.
pub open spec fn render_arg(k: Seq<char>, v: ParamValue) -> Seq<char> {
    flag_prefix(k) + k + flag_separator(k) + v.text()
}

pub open spec fn not_excluded(ex: Seq<Seq<char>>) -> spec_fn((Seq<char>, ParamValue)) -> bool {
    |e: (Seq<char>, ParamValue)| !ex.contains(e.0)
}

/// The entries that are rendered: those whose key is not excluded, in order.
pub open spec fn kept_entries(
    s: Seq<(Seq<char>, ParamValue)>,
    ex: Seq<Seq<char>>,
) -> Seq<(Seq<char>, ParamValue)> {
    s.filter(not_excluded(ex))
}

/// The rendered arguments, in order.
pub open spec fn rendered_args(s: Seq<(Seq<char>, ParamValue)>, ex: Seq<Seq<char>>) -> Seq<
    Seq<char>,
> {
    kept_entries(s, ex).map_values(|e: (Seq<char>, ParamValue)| render_arg(e.0, e.1))
}

/// Parts joined by single spaces.
pub open spec fn join_spaced(parts: Seq<Seq<char>>) -> Seq<char>
    decreases parts.len(),
{
    if parts.len() == 0 {
        Seq::empty()
    } else if parts.len() == 1 {
        parts[0]
    } else {
        join_spaced(parts.drop_last()) + " "@ + parts.last()
    }
}

/// Text of a parameter set as flags, skipping the excluded keys.
pub open spec fn flat_spec(s: Seq<(Seq<char>, ParamValue)>, ex: Seq<Seq<char>>) -> Seq<char> {
    join_spaced(rendered_args(s, ex))
}

/// The parameters of one stage.
#[derive(Debug)]
pub struct StepParams {
    values: Dict<ParamValue>,
}

impl View for StepParams {
    type V = Seq<(Seq<char>, ParamValue)>;

    closed spec fn view(&self) -> Seq<(Seq<char>, ParamValue)> {
        self.values@
    }
}

pub open spec fn str_texts(v: Seq<&str>) -> Seq<Seq<char>> {
    v.map_values(|s: &str| s@)
}

fn contains_str(v: &Vec<&str>, k: &str) -> (r: bool)
    ensures
        r == str_texts(v@).contains(k@),
{
    let mut i: usize = 0;
    while i < v.len()
        invariant
            i <= v@.len(),
            forall|j: int| 0 <= j < i ==> v@[j]@ != k@,
        decreases v@.len() - i,
    {
        if str_eq(v[i], k) {
            assert(str_texts(v@)[i as int] == k@);
            return true;
        }
        i = i + 1;
    }
    assert(!str_texts(v@).contains(k@)) by {
        if str_texts(v@).contains(k@) {
            let j = choose|j: int| 0 <= j < str_texts(v@).len() && str_texts(v@)[j] == k@;
            assert(v@[j]@ == k@);
        }
    }
    false
}

fn render_one(k: &String, v: &ParamValue) -> (r: String)
    ensures
        r@ == render_arg(k@, *v),
{
    proof {
        reveal_strlit("--");
        reveal_strlit("-");
        reveal_strlit("=");
        reveal_strlit(" ");
    }
    let mut out = if k.as_str().unicode_len() > 2 {
        String::from_str("--")
    } else {
        String::from_str("-")
    };
    out.append(k.as_str());
    if str_eq(k.as_str(), "secondary") {
        out.append("=");
    } else {
        out.append(" ");
    }
    let t = v.to_string();
    out.append(t.as_str());
    out
}

impl StepParams {
    pub open spec fn wf(&self) -> bool {
        unique_keys(self@)
    }

    /// An empty parameter set.
    pub fn new() -> (r: Self)
        ensures
            r@ == Seq::<(Seq<char>, ParamValue)>::empty(),
            r.wf(),
    {
        StepParams { values: Dict::new() }
    }

    /// Sets `key` to `value`.
    pub fn insert(&mut self, key: String, value: ParamValue)
        requires
            old(self).wf(),
        ensures
            final(self).wf(),
            final(self)@ == insert_spec(old(self)@, key@, value),
    {
        self.values.insert(key, value);
    }

    /// Removes `key` when present.
    pub fn remove(&mut self, key: &str)
        requires
            old(self).wf(),
        ensures
            final(self).wf(),
            final(self)@ == remove_spec(old(self)@, key@),
    {
        self.values.remove(key);
    }

    /// The value under `key`, if present.
    pub fn get(&self, key: &str) -> (r: Option<&ParamValue>)
        requires
            self.wf(),
        ensures
            match r {
                Some(v) => lookup(self@, key@) == Some(*v),
                None => lookup(self@, key@) is None,
            },
    {
        self.values.get(key)
    }

    /// Renders the parameters as command-line flags, in table order, leaving
    /// out the excluded keys: `-k v` for keys of at most two characters,
    /// `--key v` otherwise, `=` in place of the space for `secondary`; the
    /// arguments are joined by single spaces.
    pub fn flat(&self, exclude: Option<Vec<&str>>) -> (r: String)
        ensures
            r@ == flat_spec(
                self@,
                match exclude {
                    Some(v) => str_texts(v@),
                    None => Seq::empty(),
                },
            ),
    {
        let ex: Vec<&str> = match exclude {
            Some(v) => v,
            None => Vec::new(),
        };
        let ghost exs = str_texts(ex@);
        assert(exs == match exclude {
            Some(v) => str_texts(v@),
            None => Seq::<Seq<char>>::empty(),
        }) by {
            if exclude is None {
                assert(str_texts(ex@) =~= Seq::<Seq<char>>::empty());
            }
        }
        let ghost p = not_excluded(exs);
        let ghost all = self@;
        let mut out = String::new();
        let mut any = false;
        let mut i: usize = 0;
        assert(all.take(0) =~= Seq::<(Seq<char>, ParamValue)>::empty());
        proof {
            reveal(Seq::filter);
        }
        assert(rendered_args(all.take(0), exs) =~= Seq::<Seq<char>>::empty());
        while i < self.values.len()
            invariant
                i <= all.len(),
                all == self@,
                all == self.values@,
                exs == str_texts(ex@),
                p == not_excluded(exs),
                out@ == join_spaced(rendered_args(all.take(i as int), exs)),
                any == (rendered_args(all.take(i as int), exs).len() > 0),
            decreases all.len() - i,
        {
            let k = self.values.key_at(i);
            let v = self.values.value_at(i);
            let ghost prev = rendered_args(all.take(i as int), exs);
            proof {
                assert(all.take(i + 1) =~= all.take(i as int).push(all[i as int]));
                all.take(i as int).lemma_filter_push(all[i as int], p);
            }
            if !contains_str(&ex, k.as_str()) {
                let arg = render_one(k, v);
                let ghost next = rendered_args(all.take(i + 1), exs);
                assert(next =~= prev.push(render_arg(k@, *v)));
                if any {
                    out.append(" ");
                    proof {
                        reveal_strlit(" ");
                    }
                }
                out.append(arg.as_str());
                any = true;
                assert(next.drop_last() =~= prev);
            } else {
                assert(rendered_args(all.take(i + 1), exs) =~= prev);
            }
            i = i + 1;
        }
        assert(all.take(all.len() as int) =~= all);
        out
    }
}

/// Flattening renders each non-excluded key exactly once and no excluded key,
/// each as prefix, key, separator and value text.
pub proof fn lemma_flat_flags(s: Seq<(Seq<char>, ParamValue)>, ex: Seq<Seq<char>>)
    requires
        unique_keys(s),
    ensures
        rendered_args(s, ex).len() == kept_entries(s, ex).len(),
        forall|i: int|
            0 <= i < kept_entries(s, ex).len() ==> #[trigger] rendered_args(s, ex)[i] == render_arg(
                kept_entries(s, ex)[i].0,
                kept_entries(s, ex)[i].1,
            ),
        forall|k: Seq<char>|
            #[trigger] keys_of(kept_entries(s, ex)).contains(k) <==> (has_key(s, k)
                && !ex.contains(k)),
        keys_of(kept_entries(s, ex)).no_duplicates(),
        flat_spec(s, ex) == join_spaced(rendered_args(s, ex)),
{
    let p = not_excluded(ex);
    let kept = kept_entries(s, ex);
    s.filter_lemma(p);
    assert forall|k: Seq<char>| #[trigger] keys_of(kept).contains(k) <==> (has_key(s, k) && !ex.contains(k)) by {
        if keys_of(kept).contains(k) {
            let i = choose|i: int| 0 <= i < keys_of(kept).len() && keys_of(kept)[i] == k;
            assert(kept.contains(kept[i]));
            s.lemma_filter_contains_rev(p, kept[i]);
            let j = choose|j: int| 0 <= j < s.len() && s[j] == kept[i];
            assert(s[j].0 == k);
            assert(p(kept[i]));
        }
        if has_key(s, k) && !ex.contains(k) {
            let j = choose|j: int| 0 <= j < s.len() && (#[trigger] s[j]).0 == k;
            assert(p(s[j]));
            assert(kept.contains(s[j]));
            let i = choose|i: int| 0 <= i < kept.len() && kept[i] == s[j];
            assert(keys_of(kept)[i] == k);
        }
    }
    lemma_filter_unique_keys(s, p);
}

proof fn lemma_filter_unique_keys(
    s: Seq<(Seq<char>, ParamValue)>,
    p: spec_fn((Seq<char>, ParamValue)) -> bool,
)
    requires
        unique_keys(s),
    ensures
        keys_of(s.filter(p)).no_duplicates(),
        unique_keys(s.filter(p)),
    decreases s.len(),
{
    reveal(Seq::filter);
    if s.len() > 0 {
        let init = s.drop_last();
        lemma_filter_unique_keys(init, p);
        let f = init.filter(p);
        if p(s.last()) {
            assert forall|i: int| 0 <= i < f.len() implies f[i].0 != s.last().0 by {
                assert(f.contains(f[i]));
                init.lemma_filter_contains_rev(p, f[i]);
                let k = choose|k: int| 0 <= k < init.len() && init[k] == f[i];
                assert(s[k] == f[i]);
            }
            assert(s.filter(p) == f.push(s.last()));
        }
    }
}

} // verus!
