//! Typed module load parameters and their serialization to the textual form
//! `finit_module(2)` expects: entries sorted by name and separated by single
//! spaces, each written `name` (when its value serializes to nothing) or
//! `name=value`, with array values joined by commas.

use vstd::prelude::*;

use crate::text::lex_lt;
use crate::text::lemma_lex_transitive;
use crate::text::lemma_lex_trichotomy;
use crate::text::compare_names;
use crate::text::dec_int;
use crate::text::i64_to_dec;
use crate::text::NameOrder;

verus! {

/// A module parameter value.
#[derive(Debug)]
pub enum ModParamValue {
    /// Boolean value.
    Bool(bool),
    /// Integer value, signed 64-bits.
    Int(i64),
    /// String value, passed through verbatim.
    Str(String),
    /// Array of values.
    Array(Vec<ModParamValue>),
}

/// The serialized text of one parameter value.
pub open spec fn value_text(v: ModParamValue) -> Seq<char>
    decreases v,
{
    match v {
        ModParamValue::Bool(b) => if b {
            "true"@
        } else {
            "false"@
        },
        ModParamValue::Int(n) => dec_int(n as int),
        ModParamValue::Str(s) => s@,
        ModParamValue::Array(a) => array_text(a@),
    }
}

/// The serialized text of an array value: elements joined by commas, where a
/// comma is placed only when the text accumulated so far is non-empty.
pub open spec fn array_text(s: Seq<ModParamValue>) -> Seq<char>
    decreases s,
{
    if s.len() == 0 {
        Seq::empty()
    } else {
        let rest = array_text(s.drop_last());
        let last = value_text(s.last());
        if rest.len() == 0 {
            rest + last
        } else {
            rest + seq![','] + last
        }
    }
}

fn bool_str(b: bool) -> (r: &'static str)
    ensures
        r@ == if b {
            "true"@
        } else {
            "false"@
        },
{
    if b {
        "true"
    } else {
        "false"
    }
}

impl ModParamValue {
    /// Serialize this value to its parameter-string text.
    #[verifier::loop_isolation(false)]
    pub fn to_string(&self) -> (r: String)
        ensures
            r@ == value_text(*self),
        decreases *self,
    {
        match self {
            ModParamValue::Bool(b) => String::from_str(bool_str(*b)),
            ModParamValue::Int(n) => i64_to_dec(*n),
            ModParamValue::Str(s) => s.clone(),
            ModParamValue::Array(a) => {
                let mut out = String::new();
                let n = a.len();
                let mut i: usize = 0;
                while i < n
                    invariant
                        i <= n,
                        n == a@.len(),
                        out@ == array_text(a@.take(i as int)),
                    decreases n - i,
                {
                    proof {
                        assert(a@.take(i as int) =~= a@.take(i + 1 as int).drop_last());
                    }
                    if !out.as_str().is_empty() {
                        out.append(",");
                        proof {
                            reveal_strlit(",");
                            assert(","@ =~= seq![',']);
                        }
                    }
                    proof {
                        assert(*self == ModParamValue::Array(*a));
                        assert(decreases_to!(ModParamValue::Array(*a) => *a));
                        assert(decreases_to!(*a => a@));
                        assert(decreases_to!(a@ => a@[i as int]));
                    }
                    let t = a[i].to_string();
                    out.append(t.as_str());
                    proof {
                        assert(out@ == array_text(a@.take(i + 1 as int)));
                    }
                    i = i + 1;
                }
                proof {
                    assert(a@.take(n as int) =~= a@);
                }
                out
            },
        }
    }
}

} // verus!

verus! {

/// One parameter entry as it appears in specifications: the name's text and
/// the value.
#[verifier::ext_equal]
pub struct ParamEntry {
    /// The parameter name.
    pub name: Seq<char>,
    /// The parameter value.
    pub value: ModParamValue,
}

/// Entry names are strictly ascending in [`lex_lt`]; in particular they are
/// distinct.
pub open spec fn sorted_entries(s: Seq<ParamEntry>) -> bool {
    forall|i: int, j: int| 0 <= i < j < s.len() ==> #[trigger] lex_lt(s[i].name, s[j].name)
}

/// The mapping from names to values that a sequence of entries with distinct
/// names stands for.
pub open spec fn entries_map(s: Seq<ParamEntry>) -> Map<Seq<char>, ModParamValue> {
    Map::new(
        |k: Seq<char>| exists|i: int| 0 <= i < s.len() && #[trigger] s[i].name == k,
        |k: Seq<char>| s[choose|i: int| 0 <= i < s.len() && #[trigger] s[i].name == k].value,
    )
}

/// The entry sequence that results from inserting a `(name, value)` pair
/// into a name-sorted sequence: an entry with the same name is replaced in
/// place, otherwise the new entry takes its sorted position.
pub open spec fn entries_insert(
    s: Seq<ParamEntry>,
    name: Seq<char>,
    value: ModParamValue,
) -> Seq<ParamEntry>
    decreases s.len(),
{
    if s.len() == 0 {
        seq![(ParamEntry { name, value })]
    } else if lex_lt(name, s[0].name) {
        seq![(ParamEntry { name, value })] + s
    } else if name == s[0].name {
        seq![(ParamEntry { name, value })] + s.drop_first()
    } else {
        seq![s[0]] + entries_insert(s.drop_first(), name, value)
    }
}

proof fn lemma_entries_insert_splice(s: Seq<ParamEntry>, pos: int, k: Seq<char>, v: ModParamValue)
    requires
        sorted_entries(s),
        0 <= pos <= s.len(),
        forall|j: int| 0 <= j < pos ==> lex_lt(#[trigger] s[j].name, k),
        pos < s.len() ==> s[pos].name == k || lex_lt(k, s[pos].name),
    ensures
        pos < s.len() && s[pos].name == k ==> entries_insert(s, k, v) =~= s.take(pos) + seq![
            (ParamEntry { name: k, value: v }),
        ] + s.skip(pos + 1),
        pos == s.len() || lex_lt(k, s[pos].name) ==> entries_insert(s, k, v) =~= s.take(pos)
            + seq![(ParamEntry { name: k, value: v })] + s.skip(pos),
    decreases pos,
{
    let e = ParamEntry { name: k, value: v };
    if pos == 0 {
        if s.len() == 0 {
            assert(entries_insert(s, k, v) =~= s.take(0) + seq![e] + s.skip(0));
        } else if s[0].name == k {
            lemma_lex_trichotomy(k, s[0].name);
            assert(entries_insert(s, k, v) == seq![e] + s.drop_first());
            assert(entries_insert(s, k, v) =~= s.take(0) + seq![e] + s.skip(1));
        } else {
            assert(entries_insert(s, k, v) =~= s.take(0) + seq![e] + s.skip(0));
        }
    } else {
        assert(lex_lt(s[0].name, k));
        lemma_lex_trichotomy(k, s[0].name);
        assert(entries_insert(s, k, v) == seq![s[0]] + entries_insert(s.drop_first(), k, v));
        let d = s.drop_first();
        assert forall|i: int, j: int| 0 <= i < j < d.len() implies #[trigger] lex_lt(
            d[i].name,
            d[j].name,
        ) by {
            assert(d[i] == s[i + 1]);
            assert(d[j] == s[j + 1]);
            assert(lex_lt(s[i + 1].name, s[j + 1].name));
        }
        assert forall|j: int| 0 <= j < pos - 1 implies lex_lt(#[trigger] d[j].name, k) by {
            assert(d[j] == s[j + 1]);
            assert(lex_lt(s[j + 1].name, k));
        }
        assert(pos - 1 < d.len() ==> d[pos - 1] == s[pos]);
        lemma_entries_insert_splice(d, pos - 1, k, v);
        if pos < s.len() && s[pos].name == k {
            assert(entries_insert(d, k, v) =~= d.take(pos - 1) + seq![e] + d.skip(pos));
            assert(seq![s[0]] + (d.take(pos - 1) + seq![e] + d.skip(pos)) =~= s.take(pos)
                + seq![e] + s.skip(pos + 1));
        }
        if pos == s.len() || lex_lt(k, s[pos].name) {
            assert(entries_insert(d, k, v) =~= d.take(pos - 1) + seq![e] + d.skip(pos - 1));
            assert(seq![s[0]] + (d.take(pos - 1) + seq![e] + d.skip(pos - 1)) =~= s.take(pos)
                + seq![e] + s.skip(pos));
        }
    }
}

/// In a sorted entry sequence, the entry at any index is what the mapping
/// the sequence stands for holds under that entry's name.
pub proof fn lemma_entries_map_index(s: Seq<ParamEntry>, i: int)
    requires
        sorted_entries(s),
        0 <= i < s.len(),
    ensures
        entries_map(s).contains_key(s[i].name),
        entries_map(s)[s[i].name] == s[i].value,
{
    assert(0 <= i < s.len() && s[i].name == s[i].name);
    let j = choose|j: int| 0 <= j < s.len() && #[trigger] s[j].name == s[i].name;
    if j != i {
        lemma_lex_trichotomy(s[i].name, s[j].name);
        if i < j {
            assert(lex_lt(s[i].name, s[j].name));
        } else {
            assert(lex_lt(s[j].name, s[i].name));
        }
        assert(false);
    }
}

/// Parameters used for loading a module: a map from parameter names to
/// values, kept in sorted name order.
#[derive(Debug)]
pub struct ModParams {
    entries: Vec<(String, ModParamValue)>,
}

impl View for ModParams {
    type V = Map<Seq<char>, ModParamValue>;

    closed spec fn view(&self) -> Map<Seq<char>, ModParamValue> {
        entries_map(self.entry_seq())
    }
}

impl ModParams {
    /// The stored entries, in storage order.
    pub closed spec fn entry_seq(&self) -> Seq<ParamEntry> {
        Seq::new(
            self.entries@.len(),
            |i: int| ParamEntry { name: self.entries@[i].0@, value: self.entries@[i].1 },
        )
    }

    /// Well-formed: entries are sorted by name, so each name occurs once.
    pub open spec fn wf(&self) -> bool {
        sorted_entries(self.entry_seq())
    }

    /// Create an empty parameter map.
    pub fn new() -> (r: ModParams)
        ensures
            r.wf(),
            r.entry_seq() == Seq::<ParamEntry>::empty(),
            r@ == Map::<Seq<char>, ModParamValue>::empty(),
    {
        let r = ModParams { entries: Vec::new() };
        proof {
            assert(r.entry_seq() =~= Seq::<ParamEntry>::empty());
            assert(r@ =~= Map::<Seq<char>, ModParamValue>::empty());
        }
        r
    }

    /// How many parameters are stored.
    pub fn len(&self) -> (n: usize)
        ensures
            n == self.entry_seq().len(),
    {
        self.entries.len()
    }

    /// Look up the value stored under a name.
    pub fn get(&self, name: &str) -> (r: Option<&ModParamValue>)
        requires
            self.wf(),
        ensures
            match r {
                Some(v) => self@.contains_key(name@) && *v == self@[name@],
                None => !self@.contains_key(name@),
            },
    {
        let (pos, found) = self.find_slot(name);
        if found {
            proof {
                lemma_entries_map_index(self.entry_seq(), pos as int);
            }
            Some(&self.entries[pos].1)
        } else {
            proof {
                lemma_absent(self.entry_seq(), pos as int, name@);
            }
            None
        }
    }

    fn find_slot(&self, name: &str) -> (r: (usize, bool))
        requires
            self.wf(),
        ensures
            r.0 <= self.entry_seq().len(),
            forall|j: int| 0 <= j < r.0 ==> lex_lt(#[trigger] self.entry_seq()[j].name, name@),
            r.1 ==> r.0 < self.entry_seq().len() && self.entry_seq()[r.0 as int].name == name@,
            !r.1 && r.0 < self.entry_seq().len() ==> lex_lt(name@, self.entry_seq()[r.0 as int].name),
    {
        let n = self.entries.len();
        let mut i: usize = 0;
        while i < n
            invariant
                i <= n,
                n == self.entry_seq().len(),
                forall|j: int| 0 <= j < i ==> lex_lt(#[trigger] self.entry_seq()[j].name, name@),
            decreases n - i,
        {
            match compare_names(self.entries[i].0.as_str(), name) {
                NameOrder::Before => {
                    proof {
                        assert(self.entry_seq()[i as int].name == self.entries@[i as int].0@);
                    }
                    i = i + 1;
                },
                NameOrder::Same => {
                    return (i, true);
                },
                NameOrder::After => {
                    return (i, false);
                },
            }
        }
        (i, false)
    }

    /// Insert a parameter, keeping entries sorted by name. Returns the value
    /// previously stored under this name, if any.
    pub fn insert(&mut self, name: String, value: ModParamValue) -> (prev: Option<ModParamValue>)
        requires
            old(self).wf(),
        ensures
            final(self).wf(),
            final(self).entry_seq() == entries_insert(old(self).entry_seq(), name@, value),
            final(self)@ == old(self)@.insert(name@, value),
            old(self)@.contains_key(name@) ==> prev == Some(old(self)@[name@]),
            !old(self)@.contains_key(name@) ==> prev == None::<ModParamValue>,
    {
        let ghost s0 = self.entry_seq();
        let (pos, found) = self.find_slot(name.as_str());
        if found {
            let old_pair = self.entries.remove(pos);
            self.entries.insert(pos, (name, value));
            proof {
                lemma_insert_replace(s0, self.entry_seq(), pos as int, value);
            }
            Some(old_pair.1)
        } else {
            proof {
                lemma_absent(s0, pos as int, name@);
            }
            self.entries.insert(pos, (name, value));
            proof {
                lemma_insert_fresh(s0, self.entry_seq(), pos as int, name@, value);
            }
            None
        }
    }
}

proof fn lemma_absent(s: Seq<ParamEntry>, pos: int, k: Seq<char>)
    requires
        sorted_entries(s),
        0 <= pos <= s.len(),
        forall|j: int| 0 <= j < pos ==> lex_lt(#[trigger] s[j].name, k),
        pos < s.len() ==> lex_lt(k, s[pos].name),
    ensures
        !entries_map(s).contains_key(k),
{
    if entries_map(s).contains_key(k) {
        let i = choose|i: int| 0 <= i < s.len() && #[trigger] s[i].name == k;
        lemma_lex_trichotomy(s[i].name, k);
        if i < pos {
            assert(lex_lt(s[i].name, k));
        } else if i == pos {
            assert(lex_lt(k, s[i].name));
        } else {
            assert(lex_lt(s[pos].name, s[i].name));
            lemma_lex_transitive(k, s[pos].name, s[i].name);
        }
        assert(false);
    }
}

proof fn lemma_insert_replace(s0: Seq<ParamEntry>, s1: Seq<ParamEntry>, pos: int, value: ModParamValue)
    requires
        sorted_entries(s0),
        0 <= pos < s0.len(),
        s1.len() == s0.len(),
        forall|j: int| 0 <= j < s0.len() && j != pos ==> s1[j] == s0[j],
        s1[pos].name == s0[pos].name,
        s1[pos].value == value,
    ensures
        sorted_entries(s1),
        entries_map(s1) == entries_map(s0).insert(s0[pos].name, value),
        entries_map(s0).contains_key(s0[pos].name),
        entries_map(s0)[s0[pos].name] == s0[pos].value,
        s1 == entries_insert(s0, s0[pos].name, value),
{
    let k0 = s0[pos].name;
    assert forall|j: int| 0 <= j < pos implies lex_lt(#[trigger] s0[j].name, k0) by {
        assert(lex_lt(s0[j].name, s0[pos].name));
    }
    lemma_entries_insert_splice(s0, pos, k0, value);
    assert(s1[pos] =~= (ParamEntry { name: k0, value }));
    assert(s1 =~= s0.take(pos) + seq![(ParamEntry { name: k0, value })] + s0.skip(pos + 1));
    assert forall|i: int, j: int| 0 <= i < j < s1.len() implies #[trigger] lex_lt(
        s1[i].name,
        s1[j].name,
    ) by {
        assert(s1[i].name == s0[i].name);
        assert(s1[j].name == s0[j].name);
        assert(lex_lt(s0[i].name, s0[j].name));
    }
    lemma_entries_map_index(s0, pos);
    lemma_entries_map_index(s1, pos);
    let m0 = entries_map(s0);
    let m1 = entries_map(s1);
    assert forall|k: Seq<char>| #[trigger] m1.contains_key(k) implies m0.insert(k0, value).contains_key(k)
        && m1[k] == m0.insert(k0, value)[k] by {
        let i = choose|i: int| 0 <= i < s1.len() && #[trigger] s1[i].name == k;
        lemma_entries_map_index(s1, i);
        lemma_entries_map_index(s0, i);
        if i == pos {
            assert(m1[k] == value);
        } else {
            assert(s1[i] == s0[i]);
            lemma_lex_trichotomy(k, k0);
            if i < pos {
                assert(lex_lt(s0[i].name, s0[pos].name));
            } else {
                assert(lex_lt(s0[pos].name, s0[i].name));
            }
            assert(k != k0);
        }
    }
    assert forall|k: Seq<char>| #[trigger] m0.insert(k0, value).contains_key(k) implies m1.contains_key(
        k,
    ) by {
        if k == k0 {
            assert(s1[pos].name == k);
        } else {
            assert(m0.contains_key(k));
            let i = choose|i: int| 0 <= i < s0.len() && #[trigger] s0[i].name == k;
            assert(s1[i].name == k);
        }
    }
    assert(m1 =~= m0.insert(k0, value));
}

proof fn lemma_insert_fresh(
    s0: Seq<ParamEntry>,
    s1: Seq<ParamEntry>,
    pos: int,
    k0: Seq<char>,
    value: ModParamValue,
)
    requires
        sorted_entries(s0),
        0 <= pos <= s0.len(),
        forall|j: int| 0 <= j < pos ==> lex_lt(#[trigger] s0[j].name, k0),
        pos < s0.len() ==> lex_lt(k0, s0[pos].name),
        s1.len() == s0.len() + 1,
        forall|j: int| 0 <= j < pos ==> s1[j] == s0[j],
        s1[pos].name == k0,
        s1[pos].value == value,
        forall|j: int| pos < j < s1.len() ==> s1[j] == s0[j - 1],
    ensures
        sorted_entries(s1),
        entries_map(s1) == entries_map(s0).insert(k0, value),
        s1 == entries_insert(s0, k0, value),
{
    lemma_entries_insert_splice(s0, pos, k0, value);
    assert(s1[pos] =~= (ParamEntry { name: k0, value }));
    assert(s1 =~= s0.take(pos) + seq![(ParamEntry { name: k0, value })] + s0.skip(pos));
    assert forall|i: int, j: int| 0 <= i < j < s1.len() implies #[trigger] lex_lt(
        s1[i].name,
        s1[j].name,
    ) by {
        if i < pos && j < pos {
            assert(lex_lt(s0[i].name, s0[j].name));
        } else if i < pos && j == pos {
            assert(lex_lt(s0[i].name, k0));
        } else if i < pos && j > pos {
            if j - 1 == i {
                assert(lex_lt(s0[i].name, k0));
                assert(false);
            }
            assert(lex_lt(s0[i].name, s0[j - 1].name));
        } else if i == pos {
            assert(lex_lt(k0, s0[pos].name));
            if j - 1 == pos {
                assert(lex_lt(k0, s1[j].name));
            } else {
                assert(lex_lt(s0[pos].name, s0[j - 1].name));
                lemma_lex_transitive(k0, s0[pos].name, s0[j - 1].name);
            }
        } else {
            assert(lex_lt(s0[i - 1].name, s0[j - 1].name));
        }
    }
    let m0 = entries_map(s0);
    let m1 = entries_map(s1);
    assert forall|k: Seq<char>| #[trigger] m1.contains_key(k) implies m0.insert(k0, value).contains_key(k)
        && m1[k] == m0.insert(k0, value)[k] by {
        let i = choose|i: int| 0 <= i < s1.len() && #[trigger] s1[i].name == k;
        lemma_entries_map_index(s1, i);
        if i == pos {
            assert(m1[k] == value);
        } else {
            let i0 = if i < pos {
                i
            } else {
                i - 1
            };
            assert(s1[i] == s0[i0]);
            lemma_entries_map_index(s0, i0);
            assert(lex_lt(s1[pos].name, s1[i].name) || lex_lt(s1[i].name, s1[pos].name));
            lemma_lex_trichotomy(k, k0);
            assert(k != k0);
        }
    }
    assert forall|k: Seq<char>| #[trigger] m0.insert(k0, value).contains_key(k) implies m1.contains_key(
        k,
    ) by {
        if k == k0 {
            assert(s1[pos].name == k);
        } else {
            assert(m0.contains_key(k));
            let i = choose|i: int| 0 <= i < s0.len() && #[trigger] s0[i].name == k;
            if i < pos {
                assert(s1[i].name == k);
            } else {
                assert(s1[i + 1] == s0[i]);
                assert(s1[i + 1].name == k);
            }
        }
    }
    assert(m1 =~= m0.insert(k0, value));
}

} // verus!

verus! {

/// The serialized text of one entry: `name` when the value's text is empty,
/// `name=value` otherwise.
pub open spec fn entry_text(e: ParamEntry) -> Seq<char> {
    if value_text(e.value).len() == 0 {
        e.name
    } else {
        e.name + seq!['='] + value_text(e.value)
    }
}

/// The serialized text of a sequence of entries: entries separated by a
/// single space, where a space is placed only when the text accumulated so
/// far is non-empty.
pub open spec fn params_text(s: Seq<ParamEntry>) -> Seq<char>
    decreases s.len(),
{
    if s.len() == 0 {
        Seq::empty()
    } else {
        let rest = params_text(s.drop_last());
        let e = entry_text(s.last());
        if rest.len() == 0 {
            rest + e
        } else {
            rest + seq![' '] + e
        }
    }
}

impl ModParams {
    /// The serialized text of this parameter map, in stored (sorted) order.
    pub open spec fn text(&self) -> Seq<char> {
        params_text(self.entry_seq())
    }
}

/// Serialize a parameter map to the textual form `finit_module(2)` expects.
#[verifier::loop_isolation(false)]
pub fn params_to_string(params: &ModParams) -> (r: String)
    ensures
        r@ == params.text(),
{
    let mut out = String::new();
    let n = params.entries.len();
    let mut i: usize = 0;
    while i < n
        invariant
            i <= n,
            n == params.entry_seq().len(),
            out@ == params_text(params.entry_seq().take(i as int)),
        decreases n - i,
    {
        let ghost s = params.entry_seq();
        proof {
            assert(s.take(i as int) =~= s.take(i + 1 as int).drop_last());
            assert(s.take(i + 1 as int).last() == s[i as int]);
        }
        if !out.as_str().is_empty() {
            out.append(" ");
            proof {
                reveal_strlit(" ");
                assert(" "@ =~= seq![' ']);
            }
        }
        out.append(params.entries[i].0.as_str());
        let txtval = params.entries[i].1.to_string();
        if !txtval.as_str().is_empty() {
            out.append("=");
            proof {
                reveal_strlit("=");
                assert("="@ =~= seq!['=']);
            }
            out.append(txtval.as_str());
        }
        proof {
            assert(out@ == params_text(s.take(i + 1 as int)));
        }
        i = i + 1;
    }
    proof {
        assert(params.entry_seq().take(n as int) =~= params.entry_seq());
    }
    out
}

proof fn lemma_entries_map_tail(s: Seq<ParamEntry>)
    requires
        sorted_entries(s),
        s.len() > 0,
    ensures
        sorted_entries(s.drop_first()),
        entries_map(s.drop_first()) == entries_map(s).remove(s[0].name),
{
    let t = s.drop_first();
    assert forall|i: int, j: int| 0 <= i < j < t.len() implies #[trigger] lex_lt(
        t[i].name,
        t[j].name,
    ) by {
        assert(t[i] == s[i + 1]);
        assert(t[j] == s[j + 1]);
        assert(lex_lt(s[i + 1].name, s[j + 1].name));
    }
    let m_t = entries_map(t);
    let m_s = entries_map(s);
    let k0 = s[0].name;
    assert forall|k: Seq<char>| #[trigger] m_t.contains_key(k) implies m_s.remove(k0).contains_key(k)
        && m_t[k] == m_s.remove(k0)[k] by {
        let i = choose|i: int| 0 <= i < t.len() && #[trigger] t[i].name == k;
        assert(t[i] == s[i + 1]);
        lemma_entries_map_index(t, i);
        lemma_entries_map_index(s, i + 1);
        assert(lex_lt(s[0].name, s[i + 1].name));
        lemma_lex_trichotomy(k0, k);
        assert(k != k0);
    }
    assert forall|k: Seq<char>| #[trigger] m_s.remove(k0).contains_key(k) implies m_t.contains_key(
        k,
    ) by {
        let i = choose|i: int| 0 <= i < s.len() && #[trigger] s[i].name == k;
        if i == 0 {
            assert(k == k0);
            assert(false);
        } else {
            assert(t[i - 1] == s[i]);
            assert(t[i - 1].name == k);
        }
    }
    assert(m_t =~= m_s.remove(k0));
}

/// Sorted entry sequences are a canonical form: two of them standing for
/// the same mapping are equal.
pub proof fn lemma_sorted_entries_canonical(s1: Seq<ParamEntry>, s2: Seq<ParamEntry>)
    requires
        sorted_entries(s1),
        sorted_entries(s2),
        entries_map(s1) == entries_map(s2),
    ensures
        s1 == s2,
    decreases s1.len(),
{
    if s1.len() == 0 {
        if s2.len() > 0 {
            lemma_entries_map_index(s2, 0);
            assert(entries_map(s1).contains_key(s2[0].name));
            assert(false);
        }
        assert(s1 =~= s2);
    } else if s2.len() == 0 {
        lemma_entries_map_index(s1, 0);
        assert(entries_map(s2).contains_key(s1[0].name));
        assert(false);
    } else {
        let k1 = s1[0].name;
        let k2 = s2[0].name;
        lemma_entries_map_index(s1, 0);
        lemma_entries_map_index(s2, 0);
        assert(entries_map(s2).contains_key(k1));
        assert(entries_map(s1).contains_key(k2));
        let j = choose|j: int| 0 <= j < s2.len() && #[trigger] s2[j].name == k1;
        let i = choose|i: int| 0 <= i < s1.len() && #[trigger] s1[i].name == k2;
        assert(k1 == k2) by {
            if i > 0 && j > 0 {
                assert(lex_lt(s1[0].name, s1[i].name));
                assert(lex_lt(s2[0].name, s2[j].name));
                lemma_lex_trichotomy(k1, k2);
                assert(false);
            }
        }
        assert(s1[0].value == s2[0].value) by {
            assert(entries_map(s1)[k1] == s1[0].value);
            assert(entries_map(s2)[k1] == s2[0].value);
        }
        lemma_entries_map_tail(s1);
        lemma_entries_map_tail(s2);
        lemma_sorted_entries_canonical(s1.drop_first(), s2.drop_first());
        assert forall|x: int| 0 <= x < s1.len() implies s1[x] == s2[x] by {
            if x == 0 {
                assert(s1[0] =~= s2[0]);
            } else {
                assert(s1.drop_first()[x - 1] == s2.drop_first()[x - 1]);
                assert(s1[x] == s1.drop_first()[x - 1]);
            }
        }
        assert(s1.len() == s2.len()) by {
            assert(s1.drop_first().len() == s2.drop_first().len());
        }
        assert(s1 =~= s2);
    }
}

/// The map view of a parameter set is exactly the mapping its entry
/// sequence stands for.
pub proof fn lemma_view_is_entries_map(p: &ModParams)
    ensures
        p@ == entries_map(p.entry_seq()),
{
}

/// Serialization is deterministic: two well-formed parameter maps that hold
/// the same entries serialize to the same string, however and in whatever
/// order those entries were inserted.
pub proof fn lemma_serialization_deterministic(p1: &ModParams, p2: &ModParams)
    requires
        p1.wf(),
        p2.wf(),
        p1@ == p2@,
    ensures
        p1.text() == p2.text(),
{
    lemma_sorted_entries_canonical(p1.entry_seq(), p2.entry_seq());
}

} // verus!
