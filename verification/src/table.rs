//! Lists of named entries, searched by name from the front.

use vstd::prelude::*;

verus! {

/// The index of the first of `names`, from `from` on, that equals `name`; the length of
/// `names` when there is none.
pub open spec fn scan(names: Seq<Seq<char>>, name: Seq<char>, from: int) -> int
    decreases names.len() - from,
{
    if from < 0 || from >= names.len() {
        names.len() as int
    } else if names[from] == name {
        from
    } else {
        scan(names, name, from + 1)
    }
}

/// The names of a list of entries.
pub open spec fn names<V>(entries: Seq<(Seq<char>, V)>) -> Seq<Seq<char>> {
    Seq::new(entries.len(), |i: int| entries[i].0)
}

/// The index of the first entry called `name`, or the number of entries when there is none.
pub open spec fn position<V>(entries: Seq<(Seq<char>, V)>, name: Seq<char>) -> int {
    scan(names(entries), name, 0)
}

/// Whether an entry is called `name`.
pub open spec fn has<V>(entries: Seq<(Seq<char>, V)>, name: Seq<char>) -> bool {
    position(entries, name) < entries.len()
}

/// The entries with `name` set to `value`: in place where an entry has that name, at the end
/// where none has.
pub open spec fn with<V>(entries: Seq<(Seq<char>, V)>, name: Seq<char>, value: V) -> Seq<
    (Seq<char>, V),
> {
    if has(entries, name) {
        entries.update(position(entries, name), (name, value))
    } else {
        entries.push((name, value))
    }
}

/// The names of a list of entries as they are stored.
pub open spec fn stored_names<V>(entries: Seq<(String, V)>) -> Seq<Seq<char>> {
    Seq::new(entries.len(), |i: int| entries[i].0@)
}

/// A scan finds a name at `from` or later, and nothing of that name lies in between.
pub proof fn scan_bounds(names: Seq<Seq<char>>, name: Seq<char>, from: int)
    requires
        0 <= from <= names.len(),
    ensures
        from <= scan(names, name, from) <= names.len(),
        scan(names, name, from) < names.len() ==> names[scan(names, name, from)] == name,
        forall|i: int| from <= i < scan(names, name, from) ==> names[i] != name,
    decreases names.len() - from,
{
    if from < names.len() && names[from] != name {
        scan_bounds(names, name, from + 1);
    }
}

/// Setting an entry puts the value under that name.
pub proof fn with_sets<V>(entries: Seq<(Seq<char>, V)>, name: Seq<char>, value: V)
    ensures
        has(with(entries, name, value), name),
        position(with(entries, name, value), name) == position(entries, name),
        with(entries, name, value)[position(entries, name)] == (name, value),
{
    let after = with(entries, name, value);
    scan_bounds(names(entries), name, 0);
    scan_bounds(names(after), name, 0);
    let at = position(entries, name);
    assert(names(after)[at] == name);
    let after_at = position(after, name);
    if after_at < at {
        assert(names(entries)[after_at] == names(after)[after_at]);
    }
}

/// Finds the first entry called `name`.
pub fn find<V>(entries: &Vec<(String, V)>, name: &String) -> (at: usize)
    ensures
        at == scan(stored_names(entries@), name@, 0),
        at <= entries.len(),
{
    let mut at: usize = 0;
    while at < entries.len()
        invariant
            at <= entries.len(),
            scan(stored_names(entries@), name@, at as int) == scan(
                stored_names(entries@),
                name@,
                0,
            ),
        decreases entries.len() - at,
    {
        if entries[at].0 == *name {
            return at;
        }
        at += 1;
    }
    at
}

} // verus!
