//! The parsed shape of a translation document: a tagged variant type over
//! nested mappings, text leaves and other rendered values, together with the
//! walk that dotted-key resolution performs over it.

use vstd::prelude::*;

verus! {

/// One node of a parsed translation document.
///
/// A document is a nested mapping from field names to values; resolution
/// walks it field by field. A text leaf is returned verbatim; every other
/// value is returned through the textual rendering recorded beside it.
#[derive(Debug)]
pub enum TransValue {
    /// A text leaf; resolution returns its contents verbatim.
    Text(String),
    /// Any other scalar or an array, kept as its textual rendering.
    Rendered(String),
    /// A nested mapping: its textual rendering, and its fields in document
    /// order.
    Object(String, Vec<(String, TransValue)>),
}

impl TransValue {
    /// The text a value resolves to when the walk ends on it: a text leaf
    /// verbatim, anything else through its stored rendering.
    pub open spec fn display(self) -> Seq<char> {
        match self {
            TransValue::Text(s) => s@,
            TransValue::Rendered(s) => s@,
            TransValue::Object(r, _) => r@,
        }
    }
}

/// The value of the first entry whose key reads as `seg`, if any.
pub open spec fn lookup_entry(entries: Seq<(String, TransValue)>, seg: Seq<char>) -> Option<
    TransValue,
>
    decreases entries.len(),
{
    if entries.len() == 0 {
        None
    } else if entries[0].0@ == seg {
        Some(entries[0].1)
    } else {
        lookup_entry(entries.drop_first(), seg)
    }
}

/// Walks `segs` through nested mappings starting at `v`: every segment must
/// name a field of the mapping reached so far, and an exhausted path yields
/// the value it ends on. Anything else is a miss.
pub open spec fn walk(v: TransValue, segs: Seq<Seq<char>>) -> Option<TransValue>
    decreases segs.len(),
{
    if segs.len() == 0 {
        Some(v)
    } else {
        match v {
            TransValue::Object(_, entries) => match lookup_entry(entries@, segs[0]) {
                Some(child) => walk(child, segs.drop_first()),
                None => None,
            },
            _ => None,
        }
    }
}

/// A prefix of `entries` without a matching key leaves `lookup_entry`
/// unchanged on the rest.
proof fn lemma_lookup_entry_skip(entries: Seq<(String, TransValue)>, seg: Seq<char>, i: int)
    requires
        0 <= i <= entries.len(),
        forall|j: int| 0 <= j < i ==> (#[trigger] entries[j]).0@ != seg,
    ensures
        lookup_entry(entries, seg) == lookup_entry(entries.skip(i), seg),
    decreases i,
{
    if i > 0 {
        assert(entries.drop_first().skip(i - 1) =~= entries.skip(i));
        lemma_lookup_entry_skip(entries.drop_first(), seg, i - 1);
    } else {
        assert(entries.skip(0) =~= entries);
    }
}

/// Finds the first entry whose key equals `seg`.
pub fn find_entry<'a>(entries: &'a Vec<(String, TransValue)>, seg: &String) -> (r: Option<
    &'a TransValue,
>)
    ensures
        match r {
            Some(v) => lookup_entry(entries@, seg@) == Some(*v),
            None => lookup_entry(entries@, seg@) is None,
        },
{
    let n = entries.len();
    let mut i: usize = 0;
    while i < n
        invariant
            0 <= i <= n == entries@.len(),
            forall|j: int| 0 <= j < i ==> (#[trigger] entries@[j]).0@ != seg@,
        decreases n - i,
    {
        if entries[i].0 == *seg {
            proof {
                lemma_lookup_entry_skip(entries@, seg@, i as int);
                assert(entries@.skip(i as int)[0] == entries@[i as int]);
            }
            return Some(&entries[i].1);
        }
        i += 1;
    }
    proof {
        lemma_lookup_entry_skip(entries@, seg@, n as int);
    }
    None
}

/// Walks the segments of `segs` from position `from` on through `v`.
pub fn walk_value<'a>(v: &'a TransValue, segs: &Vec<String>, from: usize) -> (r: Option<
    &'a TransValue,
>)
    requires
        from <= segs@.len(),
    ensures
        match r {
            Some(u) => walk(*v, segs.deep_view().skip(from as int)) == Some(*u),
            None => walk(*v, segs.deep_view().skip(from as int)) is None,
        },
    decreases segs@.len() - from,
{
    proof {
        assert(segs.deep_view().len() == segs@.len());
    }
    if from == segs.len() {
        proof {
            assert(segs.deep_view().skip(from as int) =~= Seq::<Seq<char>>::empty());
        }
        Some(v)
    } else {
        let ghost rest = segs.deep_view().skip(from as int);
        proof {
            assert(rest[0] == segs@[from as int]@);
            assert(rest.drop_first() =~= segs.deep_view().skip(from as int + 1));
        }
        match v {
            TransValue::Object(_, entries) => match find_entry(entries, &segs[from]) {
                Some(child) => walk_value(child, segs, from + 1),
                None => None,
            },
            _ => None,
        }
    }
}

/// The text `v` resolves to when the walk ends on it.
pub fn display_text(v: &TransValue) -> (r: String)
    ensures
        r@ == v.display(),
{
    match v {
        TransValue::Text(s) => s.clone(),
        TransValue::Rendered(s) => s.clone(),
        TransValue::Object(rendering, _) => rendering.clone(),
    }
}

} // verus!
