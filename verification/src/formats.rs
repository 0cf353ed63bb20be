//! Format descriptions of the `time` crate: which of them are handed to it.
//!
//! A description holds components in brackets, such as `[year]`. A component can hold
//! descriptions in turn, as `[optional [:[second]]]` does. A nested description that is
//! not valid may leave the parser of `time` in a state that its own assertions deny. So
//! each is tried on its own first, and where one is not valid, the whole is refused. That
//! goes for a few descriptions, too, in which `time` skips an invalid one: it reads
//! `[day [[ ]` as `[day]`.
use crate::dates::{check_format, format_check};
use crate::text::chars_of;
use vstd::prelude::*;

verus! {

/// Where the descriptions stand that are nested right below the components of a
/// description, from a place in it on. `depth` is the number of brackets that are open
/// there, and `start` the place behind the second of them. An odd number of open
/// brackets is the inside of a component, an even one that of a description, where a
/// backslash takes the meaning from the next character.
pub open spec fn nested_from(s: Seq<char>, i: int, depth: nat, start: int) -> Seq<(int, int)>
    decreases s.len() + 1 - i,
{
    if i >= s.len() {
        if depth >= 2 {
            seq![(start, s.len() as int)]
        } else {
            Seq::empty()
        }
    } else if depth % 2 == 0 && s[i] == '\\' {
        nested_from(s, i + 2, depth, start)
    } else if s[i] == '[' {
        nested_from(
            s,
            i + 1,
            depth + 1,
            if depth == 1 {
                i + 1
            } else {
                start
            },
        )
    } else if s[i] == ']' && depth == 2 {
        seq![(start, i)] + nested_from(s, i + 1, 1, start)
    } else if s[i] == ']' && depth > 0 {
        nested_from(s, i + 1, (depth - 1) as nat, start)
    } else {
        nested_from(s, i + 1, depth, start)
    }
}

/// Where the descriptions stand that are nested right below the components of a
/// description.
pub open spec fn nested(s: Seq<char>) -> Seq<(int, int)> {
    nested_from(s, 0, 0, 0)
}

/// Whether a description is one that is handed to `time`: each nested one is, and is
/// valid on its own.
pub open spec fn format_handled(s: Seq<char>) -> bool
    decreases s.len(),
{
    forall|k: int|
        0 <= k < nested(s).len() ==> {
            let part = s.subrange((#[trigger] nested(s)[k]).0, nested(s)[k].1);
            part.len() < s.len() && format_handled(part) && format_check(part) is Ok
        }
}

/// Finds the descriptions that are nested right below the components of a description.
fn find_nested(s: &Vec<char>) -> (r: Vec<(usize, usize)>)
    ensures
        r@.len() == nested(s@).len(),
        forall|k: int|
            0 <= k < r@.len() ==> {
                &&& (#[trigger] r@[k]).0 == nested(s@)[k].0
                &&& r@[k].1 == nested(s@)[k].1
                &&& 2 <= r@[k].0 <= r@[k].1 <= s@.len()
            },
{
    let mut found: Vec<(usize, usize)> = Vec::new();
    let mut i: usize = 0;
    let mut depth: usize = 0;
    let mut start: usize = 0;
    while i < s.len()
        invariant
            i <= s@.len() + 1,
            depth <= i,
            depth >= 2 ==> 2 <= start <= i && start <= s@.len(),
            nested(s@) =~= found@.map_values(|range: (usize, usize)| (range.0 as int, range.1 as int))
                + nested_from(s@, i as int, depth as nat, start as int),
            forall|k: int|
                0 <= k < found@.len() ==> 2 <= (#[trigger] found@[k]).0 <= found@[k].1 <= s@.len(),
        decreases s@.len() + 1 - i,
    {
        let ghost before = found@;
        if depth % 2 == 0 && s[i] == '\\' {
            if i + 1 == s.len() {
                i = i + 1;
                proof {
                    assert(nested_from(s@, i + 1, depth as nat, start as int) == nested_from(
                        s@,
                        i as int,
                        depth as nat,
                        start as int,
                    ));
                }
            } else {
                i = i + 2;
            }
        } else if s[i] == '[' {
            if depth == 1 {
                start = i + 1;
            }
            depth = depth + 1;
            i = i + 1;
        } else if s[i] == ']' && depth == 2 {
            found.push((start, i));
            assert(found@.map_values(
                |range: (usize, usize)| (range.0 as int, range.1 as int),
            ) =~= before.map_values(
                |range: (usize, usize)| (range.0 as int, range.1 as int),
            ) + seq![(start as int, i as int)]);
            depth = 1;
            i = i + 1;
        } else if s[i] == ']' && depth > 0 {
            depth = depth - 1;
            i = i + 1;
        } else {
            i = i + 1;
        }
    }
    if depth >= 2 {
        found.push((start, s.len()));
    }
    found
}

/// Tells whether a description is one that is handed to `time`.
pub fn is_handled(format: &str) -> (r: bool)
    ensures
        r == format_handled(format@),
    decreases format@.len(),
{
    let s = chars_of(format);
    let parts = find_nested(&s);
    for k in 0..parts.len()
        invariant
            s@ == format@,
            parts@.len() == nested(format@).len(),
            forall|j: int|
                0 <= j < parts@.len() ==> {
                    &&& (#[trigger] parts@[j]).0 == nested(s@)[j].0
                    &&& parts@[j].1 == nested(s@)[j].1
                    &&& 2 <= parts@[j].0 <= parts@[j].1 <= s@.len()
                },
            forall|j: int|
                0 <= j < k ==> {
                    let part = format@.subrange((#[trigger] nested(format@)[j]).0, nested(format@)[j].1);
                    part.len() < format@.len() && format_handled(part) && format_check(part) is Ok
                },
    {
        assert(parts@[k as int].0 == nested(s@)[k as int].0);
        let part = format.substring_char(parts[k].0, parts[k].1);
        if !is_handled(part) {
            return false;
        }
        match check_format(part) {
            Ok(()) => {},
            Err(_) => {
                return false;
            },
        }
    }
    true
}

/// A description in which no component holds another bracket is handed to `time`: each
/// opening bracket is closed, if at all, before the next one opens.
pub proof fn law_flat_descriptions_handled(s: Seq<char>)
    requires
        forall|k: int| 0 <= k < s.len() ==> #[trigger] s[k] != '\\',
        forall|i: int, j: int|
            0 <= i < j < s.len() && #[trigger] s[i] == '[' && #[trigger] s[j] == '[' ==> exists|k: int|
                i < k < j && #[trigger] s[k] == ']',
    ensures
        nested(s).len() == 0,
        format_handled(s),
{
    lemma_flat(s, 0, 0, 0, -1);
}

/// Nothing is nested in what is left of a description that is flat.
proof fn lemma_flat(s: Seq<char>, i: int, depth: nat, start: int, open: int)
    requires
        0 <= i <= s.len(),
        depth <= 1,
        depth == 1 ==> 0 <= open < i && s[open] == '[' && (forall|k: int|
            open < k < i ==> #[trigger] s[k] != ']'),
        forall|k: int| 0 <= k < s.len() ==> #[trigger] s[k] != '\\',
        forall|i: int, j: int|
            0 <= i < j < s.len() && #[trigger] s[i] == '[' && #[trigger] s[j] == '[' ==> exists|k: int|
                i < k < j && #[trigger] s[k] == ']',
    ensures
        nested_from(s, i, depth, start).len() == 0,
    decreases s.len() - i,
{
    if i < s.len() {
        assert(s[i] != '\\');
        if s[i] == '[' {
            if depth == 1 {
                assert(s[open] == '[' && s[i] == '[');
                let k = choose|k: int| open < k < i && #[trigger] s[k] == ']';
                assert(s[k] != ']');
            }
            lemma_flat(s, i + 1, 1, start, i);
        } else if s[i] == ']' && depth == 1 {
            lemma_flat(s, i + 1, 0, start, open);
        } else {
            lemma_flat(s, i + 1, depth, start, open);
        }
    }
}

/// A description that is nested in a component is tried on its own: a component that
/// holds one, and that one no bracket or backslash, is handed to `time` exactly where
/// `time` accepts that one.
pub proof fn law_nested_descriptions_tried(name: Seq<char>, inner: Seq<char>)
    requires
        forall|k: int|
            0 <= k < name.len() ==> (#[trigger] name[k]) != '[' && name[k] != ']' && name[k] != '\\',
        forall|k: int|
            0 <= k < inner.len() ==> (#[trigger] inner[k]) != '[' && inner[k] != ']' && inner[k]
                != '\\',
    ensures
        format_handled(seq!['['] + name + seq!['['] + inner + seq![']', ']']) <==> format_check(
            inner,
        ) is Ok,
{
    let s = seq!['['] + name + seq!['['] + inner + seq![']', ']'];
    let a = name.len() as int;
    let b = a + 2 + inner.len();
    assert(s.len() == b + 2);
    assert(s[0] == '[');
    assert forall|k: int| 1 <= k < 1 + a implies s[k] != '[' && s[k] != ']' by {
        assert(s[k] == name[k - 1]);
    }
    assert(s[1 + a] == '[');
    assert forall|k: int| a + 2 <= k < b implies s[k] != '[' && s[k] != ']' && s[k] != '\\' by {
        assert(s[k] == inner[k - a - 2]);
    }
    assert(s[b] == ']' && s[b + 1] == ']');
    lemma_skips(s, 1, 1 + a, 1, 0);
    lemma_skips(s, a + 2, b, 2, a + 2);
    assert(nested_from(s, b + 2, 0, a + 2) =~= Seq::empty());
    assert(nested_from(s, b + 1, 1, a + 2) =~= Seq::empty());
    assert(nested_from(s, b, 2, a + 2) =~= seq![(a + 2, b)]);
    assert(nested(s) == seq![(a + 2, b)]);
    assert(s.subrange(a + 2, b) =~= inner);
    lemma_flat(inner, 0, 0, 0, -1);
    assert(nested(inner).len() == 0);
    assert(format_handled(inner));
    assert(nested(s)[0] == (a + 2, b));
}

/// Characters that are neither brackets nor, in a description, backslashes change nothing.
proof fn lemma_skips(s: Seq<char>, i: int, j: int, depth: nat, start: int)
    requires
        0 <= i <= j <= s.len(),
        forall|k: int| i <= k < j ==> (#[trigger] s[k]) != '[' && s[k] != ']',
        depth % 2 == 0 ==> forall|k: int| i <= k < j ==> #[trigger] s[k] != '\\',
    ensures
        nested_from(s, i, depth, start) == nested_from(s, j, depth, start),
    decreases j - i,
{
    if i < j {
        assert(s[i] != '[' && s[i] != ']');
        lemma_skips(s, i + 1, j, depth, start);
    }
}

/// A bracket behind a backslash opens no component: what follows it is not nested.
pub proof fn law_escaped_brackets_open_nothing(name: Seq<char>, inner: Seq<char>)
    requires
        forall|k: int|
            0 <= k < name.len() ==> (#[trigger] name[k]) != '[' && name[k] != ']' && name[k] != '\\',
        forall|k: int|
            0 <= k < inner.len() ==> (#[trigger] inner[k]) != '[' && inner[k] != ']' && inner[k]
                != '\\',
    ensures
        format_handled(seq!['\\', '['] + name + seq!['['] + inner + seq![']']),
{
    let s = seq!['\\', '['] + name + seq!['['] + inner + seq![']'];
    let a = 2 + name.len() as int;
    let b = a + 1 + inner.len();
    assert(s.len() == b + 1);
    assert(s[0] == '\\');
    assert forall|k: int| 2 <= k < a implies (#[trigger] s[k]) != '[' && s[k] != ']' && s[k]
        != '\\' by {
        assert(s[k] == name[k - 2]);
    }
    assert(s[a] == '[');
    assert forall|k: int| a + 1 <= k < b implies (#[trigger] s[k]) != '[' && s[k] != ']' by {
        assert(s[k] == inner[k - a - 1]);
    }
    assert(s[b] == ']');
    lemma_skips(s, 2, a, 0, 0);
    lemma_skips(s, a + 1, b, 1, 0);
    assert(nested_from(s, b + 1, 0, 0) == Seq::<(int, int)>::empty());
    assert(nested_from(s, b, 1, 0) == Seq::<(int, int)>::empty());
    assert(nested(s).len() == 0);
}

/// What is nested deeper is tried as well: a component that holds a description with
/// another component in it, which holds a description in turn, is handed to `time`
/// exactly where `time` accepts both descriptions.
pub proof fn law_deeper_descriptions_tried(name: Seq<char>, other: Seq<char>, inner: Seq<char>)
    requires
        forall|k: int|
            0 <= k < name.len() ==> (#[trigger] name[k]) != '[' && name[k] != ']' && name[k] != '\\',
        forall|k: int|
            0 <= k < other.len() ==> (#[trigger] other[k]) != '[' && other[k] != ']' && other[k]
                != '\\',
        forall|k: int|
            0 <= k < inner.len() ==> (#[trigger] inner[k]) != '[' && inner[k] != ']' && inner[k]
                != '\\',
    ensures
        ({
            let middle = seq!['['] + other + seq!['['] + inner + seq![']', ']'];
            format_handled(seq!['['] + name + seq!['['] + middle + seq![']', ']']) <==> format_check(
                inner,
            ) is Ok && format_check(middle) is Ok
        }),
{
    let middle = seq!['['] + other + seq!['['] + inner + seq![']', ']'];
    let s = seq!['['] + name + seq!['['] + middle + seq![']', ']'];
    law_nested_descriptions_tried(other, inner);
    let a = name.len() as int + 2;
    let c = other.len() as int;
    let e = inner.len() as int;
    let b = a + middle.len();
    assert(middle.len() == c + e + 4);
    assert(s.len() == b + 2);
    assert(s[0] == '[');
    assert forall|k: int| 1 <= k < a - 1 implies (#[trigger] s[k]) != '[' && s[k] != ']' by {
        assert(s[k] == name[k - 1]);
    }
    assert(s[a - 1] == '[');
    assert(s[a] == middle[0]);
    assert forall|k: int| a + 1 <= k < a + 1 + c implies (#[trigger] s[k]) != '[' && s[k]
        != ']' by {
        assert(s[k] == middle[k - a]);
        assert(middle[k - a] == other[k - a - 1]);
    }
    assert(s[a + 1 + c] == middle[1 + c]);
    assert forall|k: int| a + 2 + c <= k < a + 2 + c + e implies (#[trigger] s[k]) != '[' && s[k]
        != ']' && s[k] != '\\' by {
        assert(s[k] == middle[k - a]);
        assert(middle[k - a] == inner[k - a - 2 - c]);
    }
    assert(s[b - 2] == middle[c + e + 2] && s[b - 1] == middle[c + e + 3]);
    assert(s[b] == ']' && s[b + 1] == ']');
    lemma_skips(s, 1, a - 1, 1, 0);
    lemma_skips(s, a + 1, a + 1 + c, 3, a);
    lemma_skips(s, a + 2 + c, b - 2, 4, a);
    assert(nested_from(s, b + 2, 0, a) =~= Seq::empty());
    assert(nested_from(s, b + 1, 1, a) =~= Seq::empty());
    assert(nested_from(s, b, 2, a) =~= seq![(a, b)]);
    assert(nested_from(s, b - 1, 3, a) == nested_from(s, b, 2, a));
    assert(nested_from(s, b - 2, 4, a) == nested_from(s, b - 1, 3, a));
    assert(nested_from(s, a + 1 + c, 3, a) == nested_from(s, a + 2 + c, 4, a));
    assert(nested_from(s, a, 2, a) == nested_from(s, a + 1, 3, a));
    assert(nested(s) == seq![(a, b)]);
    assert(s.subrange(a, b) =~= middle);
    assert(nested(s)[0] == (a, b));
}

} // verus!
