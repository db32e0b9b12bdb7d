//! The value model: [`Entry`], the tagged value every memory cell holds, and
//! [`MemoryReturnType`], the envelope a memory read hands back. Includes a
//! verified JSON string encoder used to render entry lists as JSON arrays.

use vstd::prelude::*;
use vstd::string::StrSliceExecFns;
use vstd::string::StringExecFns;
use crate::outside::{json_reparse, try_parse_compact};

verus! {

/// Abstract value of an [`Entry`]: the character content plus the tag.
pub enum EntryModel {
    Text(Seq<char>),
    Json(Seq<char>),
}

/// The character content of an entry, whatever its tag. A JSON entry renders
/// as its compact JSON text.
pub open spec fn entry_content(m: EntryModel) -> Seq<char> {
    match m {
        EntryModel::Text(s) => s,
        EntryModel::Json(s) => s,
    }
}

/// A tagged value: either a raw string, or a JSON document held in compact
/// rendering. Entries are the universal currency of memory.
pub enum Entry {
    Text(String),
    Json(String),
}

impl View for Entry {
    type V = EntryModel;

    open spec fn view(&self) -> EntryModel {
        match self {
            Entry::Text(s) => EntryModel::Text(s@),
            Entry::Json(s) => EntryModel::Json(s@),
        }
    }
}

/// The entry that a given string constructs: its compact JSON form when the
/// string parses as JSON, the string itself otherwise.
pub open spec fn entry_from_spec(s: Seq<char>) -> EntryModel {
    match json_reparse(s) {
        Option::Some(t) => EntryModel::Json(t),
        Option::None => EntryModel::Text(s),
    }
}

impl Entry {
    /// Build an entry from a string: JSON if it parses, plain text otherwise.
    pub fn try_value_or_str(s: &str) -> (r: Entry)
        ensures
            r@ == entry_from_spec(s@),
    {
        match try_parse_compact(s) {
            Some(j) => Entry::Json(j),
            None => Entry::Text(s.to_owned()),
        }
    }

    /// The textual rendering; both variants render as their content.
    pub fn to_string(&self) -> (r: String)
        ensures
            r@ == entry_content(self@),
    {
        match self {
            Entry::Text(s) => s.clone(),
            Entry::Json(s) => s.clone(),
        }
    }

    /// A copy with the same abstract value.
    pub fn duplicate(&self) -> (r: Entry)
        ensures
            r@ == self@,
    {
        match self {
            Entry::Text(s) => Entry::Text(s.clone()),
            Entry::Json(s) => Entry::Json(s.clone()),
        }
    }
}

/// Building an entry from a string and rendering it back returns the original
/// string, for every string that is not valid JSON and for every string that
/// is valid JSON in compact form (one whose reparse is itself).
pub proof fn lemma_entry_round_trip(s: Seq<char>)
    ensures
        json_reparse(s) is None ==> entry_content(entry_from_spec(s)) == s,
        json_reparse(s) == Option::Some(s) ==> entry_content(entry_from_spec(s)) == s,
{
}

/// Joined rendering of a list of entries: each entry's content followed by
/// `" \n"`.
pub open spec fn entries_joined(es: Seq<Entry>) -> Seq<char>
    decreases es.len(),
{
    if es.len() == 0 {
        Seq::empty()
    } else {
        entry_content(es[0]@) + seq![' ', '\n'] + entries_joined(es.drop_first())
    }
}

/// What a memory read returns: one optional entry, an optional list of
/// entries, or a list of wrapped results.
pub enum MemoryReturnType {
    Entry(Option<Entry>),
    EntryVec(Option<Vec<Entry>>),
    Multiple(Vec<MemoryReturnType>),
}

/// Joined rendering of the wrapped results from index `from` on, each
/// followed by `" \n"`.
pub open spec fn mrt_list_string(rs: Seq<MemoryReturnType>, from: int) -> Seq<char>
    decreases rs, rs.len() - from,
{
    if from < 0 || from >= rs.len() {
        Seq::empty()
    } else {
        mrt_string(rs[from]) + seq![' ', '\n'] + mrt_list_string(rs, from + 1)
    }
}

/// The concatenating string rendering of a wrapped result.
pub open spec fn mrt_string(m: MemoryReturnType) -> Seq<char>
    decreases m, 0int,
{
    match m {
        MemoryReturnType::Entry(e) => match e {
            Option::Some(entry) => entry_content(entry@),
            Option::None => Seq::empty(),
        },
        MemoryReturnType::EntryVec(v) => match v {
            Option::Some(entries) => entries_joined(entries@),
            Option::None => Seq::empty(),
        },
        MemoryReturnType::Multiple(rs) => mrt_list_string(rs@, 0),
    }
}

/// The JSON-array rendering of a wrapped result's stringified elements,
/// given for list shapes only.
pub open spec fn mrt_to_json(m: MemoryReturnType) -> Option<Seq<char>> {
    match m {
        MemoryReturnType::EntryVec(Option::Some(es)) => Option::Some(
            crate::jsontext::json_string_array(
                Seq::new(es@.len(), |i: int| entry_content(es@[i]@)),
            ),
        ),
        MemoryReturnType::Multiple(rs) => Option::Some(
            crate::jsontext::json_string_array(Seq::new(rs@.len(), |i: int| mrt_string(rs@[i]))),
        ),
        _ => Option::None,
    }
}

/// Emptiness of a wrapped result.
pub open spec fn mrt_is_none(m: MemoryReturnType) -> bool {
    match m {
        MemoryReturnType::Entry(e) => e is None,
        MemoryReturnType::EntryVec(v) => v is None,
        MemoryReturnType::Multiple(rs) => rs@.len() == 0,
    }
}

impl MemoryReturnType {
    /// Whether the wrapped result is empty.
    pub fn is_none(&self) -> (r: bool)
        ensures
            r == mrt_is_none(*self),
    {
        match self {
            MemoryReturnType::Entry(e) => e.is_none(),
            MemoryReturnType::EntryVec(v) => v.is_none(),
            MemoryReturnType::Multiple(rs) => rs.len() == 0,
        }
    }

    /// The concatenating string rendering: a single entry renders as its
    /// content, lists render each element followed by `" \n"`.
    pub fn to_string(&self) -> (r: String)
        ensures
            r@ == mrt_string(*self),
        decreases *self,
    {
        match self {
            MemoryReturnType::Entry(e) => match e {
                Some(entry) => entry.to_string(),
                None => String::new(),
            },
            MemoryReturnType::EntryVec(v) => match v {
                Some(entries) => {
                    let mut res = String::new();
                    let mut i: usize = 0;
                    let n = entries.len();
                    proof {
                        assert(res@ + entries_joined(entries@) =~= entries_joined(entries@));
                        assert(entries@.subrange(0, n as int) =~= entries@);
                    }
                    while i < n
                        invariant
                            n == entries@.len(),
                            i <= n,
                            entries_joined(entries@) == res@ + entries_joined(
                                entries@.subrange(i as int, n as int),
                            ),
                        decreases n - i,
                    {
                        let piece = entries[i].to_string();
                        res.append(piece.as_str());
                        res.append(" \n");
                        proof {
                            reveal_strlit(" \n");
                            let rest = entries@.subrange(i as int, n as int);
                            assert(rest[0] == entries@[i as int]);
                            assert(rest.drop_first() =~= entries@.subrange(i + 1, n as int));
                            assert(" \n"@ =~= seq![' ', '\n']);
                        }
                        i += 1;
                    }
                    proof {
                        assert(entries@.subrange(n as int, n as int) =~= Seq::<Entry>::empty());
                    }
                    res
                },
                None => String::new(),
            },
            MemoryReturnType::Multiple(rs) => {
                let mut res = String::new();
                let mut i: usize = 0;
                let n = rs.len();
                proof {
                    assert(res@ + mrt_list_string(rs@, 0) =~= mrt_list_string(rs@, 0));
                }
                while i < n
                    invariant
                        *self == MemoryReturnType::Multiple(*rs),
                        n == rs@.len(),
                        i <= n,
                        mrt_list_string(rs@, 0) == res@ + mrt_list_string(rs@, i as int),
                    decreases n - i,
                {
                    proof {
                        let m = *self;
                        assert(m == MemoryReturnType::Multiple(*rs));
                        assert(decreases_to!(m => m->Multiple_0));
                        assert(m->Multiple_0 == *rs);
                        assert(decreases_to!(*rs => rs@));
                        assert(decreases_to!(rs@ => rs@[i as int]));
                        assert(decreases_to!(m => rs@[i as int]));
                    }
                    let piece = rs[i].to_string();
                    res.append(piece.as_str());
                    res.append(" \n");
                    proof {
                        reveal_strlit(" \n");
                        assert(" \n"@ =~= seq![' ', '\n']);
                    }
                    i += 1;
                }
                res
            },
        }
    }

    /// The JSON-array rendering of the stringified elements: given for list
    /// shapes, absent for a single entry.
    pub fn to_json(&self) -> (r: Option<String>)
        ensures
            match r {
                Some(t) => mrt_to_json(*self) == Option::Some(t@),
                None => mrt_to_json(*self) is None,
            },
    {
        match self {
            MemoryReturnType::EntryVec(Some(entries)) => {
                let ghost target = Seq::new(entries@.len(), |i: int| entry_content(entries@[i]@));
                let mut out: Vec<String> = Vec::new();
                let mut i: usize = 0;
                let n = entries.len();
                while i < n
                    invariant
                        n == entries@.len(),
                        i <= n,
                        target == Seq::new(entries@.len(), |j: int| entry_content(entries@[j]@)),
                        out@.len() == i,
                        forall|j: int| 0 <= j < i ==> out@[j]@ == target[j],
                    decreases n - i,
                {
                    let piece = entries[i].to_string();
                    out.push(piece);
                    i += 1;
                }
                proof {
                    assert(out.deep_view() =~= target);
                }
                Some(crate::jsontext::json_array_of_strings(&out))
            },
            MemoryReturnType::Multiple(rs) => {
                let ghost target = Seq::new(rs@.len(), |i: int| mrt_string(rs@[i]));
                let mut out: Vec<String> = Vec::new();
                let mut i: usize = 0;
                let n = rs.len();
                while i < n
                    invariant
                        *self == MemoryReturnType::Multiple(*rs),
                        n == rs@.len(),
                        i <= n,
                        target == Seq::new(rs@.len(), |j: int| mrt_string(rs@[j])),
                        out@.len() == i,
                        forall|j: int| 0 <= j < i ==> out@[j]@ == target[j],
                    decreases n - i,
                {
                    let piece = rs[i].to_string();
                    out.push(piece);
                    i += 1;
                }
                proof {
                    assert(out.deep_view() =~= target);
                }
                Some(crate::jsontext::json_array_of_strings(&out))
            },
            _ => None,
        }
    }

    /// The entries a list-valued result carries; other shapes carry none.
    pub fn into_entries(self) -> (r: Vec<Entry>)
        ensures
            r@ == match self {
                MemoryReturnType::EntryVec(Option::Some(es)) => es@,
                _ => Seq::<Entry>::empty(),
            },
    {
        match self {
            MemoryReturnType::EntryVec(Some(es)) => es,
            _ => Vec::new(),
        }
    }
}

} // verus!
