//! Small verified string utilities shared by the passes: equality, decimal
//! rendering, membership, order-preserving deduplication and joining.

use vstd::prelude::*;
use vstd::string::StrSliceExecFns;
use vstd::string::StringExecFns;

use crate::ast::strings_view;

verus! {

/// Executable string equality with its meaning on views.
pub fn str_eq(a: &String, b: &String) -> (r: bool)
    ensures
        r == (a@ == b@),
{
    a.eq(b)
}

/// The decimal digit character for `d % 10`.
pub open spec fn spec_digit_char(d: u64) -> char {
    ((48 + (d % 10)) as u8) as char
}

/// The decimal rendering of `n`, most significant digit first.
pub open spec fn spec_u64_str(n: u64) -> Seq<char>
    decreases n,
{
    if n < 10 {
        seq![spec_digit_char(n)]
    } else {
        spec_u64_str(n / 10).push(spec_digit_char(n))
    }
}

fn digit_str(d: u64) -> (s: &'static str)
    requires
        d < 10,
    ensures
        s@ == seq![spec_digit_char(d)],
{
    proof {
        reveal_strlit("0");
        reveal_strlit("1");
        reveal_strlit("2");
        reveal_strlit("3");
        reveal_strlit("4");
        reveal_strlit("5");
        reveal_strlit("6");
        reveal_strlit("7");
        reveal_strlit("8");
        reveal_strlit("9");
    }
    match d {
        0 => "0",
        1 => "1",
        2 => "2",
        3 => "3",
        4 => "4",
        5 => "5",
        6 => "6",
        7 => "7",
        8 => "8",
        _ => "9",
    }
}

/// Renders `n` in decimal.
pub fn u64_to_string(n: u64) -> (s: String)
    ensures
        s@ == spec_u64_str(n),
    decreases n,
{
    if n < 10 {
        String::from_str(digit_str(n))
    } else {
        let mut s = u64_to_string(n / 10);
        s.append(digit_str(n % 10));
        proof {
            assert(spec_u64_str(n / 10) + seq![spec_digit_char(n)] =~= spec_u64_str(n / 10).push(
                spec_digit_char(n),
            ));
            assert(spec_digit_char(n % 10) == spec_digit_char(n));
        }
        s
    }
}

/// Whether `names` holds a string whose view is `s`.
pub open spec fn spec_contains_str(names: Seq<Seq<char>>, s: Seq<char>) -> bool {
    exists|j: int| 0 <= j < names.len() && names[j] == s
}

/// Membership of a string in a vector of strings, by contents.
pub fn contains_string(v: &Vec<String>, s: &String) -> (r: bool)
    ensures
        r == spec_contains_str(v@.map_values(|x: String| x@), s@),
{
    let ghost names = v@.map_values(|x: String| x@);
    let mut i: usize = 0;
    while i < v.len()
        invariant
            i <= v.len(),
            names == v@.map_values(|x: String| x@),
            forall|j: int| 0 <= j < i as int ==> #[trigger] names[j] != s@,
        decreases v.len() - i,
    {
        if str_eq(&v[i], s) {
            proof {
                assert(names[i as int] == s@);
            }
            return true;
        }
        i = i + 1;
    }
    false
}

/// Deduplication keeping the first occurrence of each string, in order.
pub open spec fn spec_dedup_first(s: Seq<Seq<char>>) -> Seq<Seq<char>>
    decreases s.len(),
{
    if s.len() == 0 {
        Seq::empty()
    } else {
        let rest = spec_dedup_first(s.drop_last());
        if spec_contains_str(rest, s.last()) {
            rest
        } else {
            rest.push(s.last())
        }
    }
}

/// Removes later duplicates from a vector of strings, keeping first
/// occurrences in their original order.
pub fn dedup_strings(v: &Vec<String>) -> (r: Vec<String>)
    ensures
        r@.map_values(|x: String| x@) == spec_dedup_first(v@.map_values(|x: String| x@)),
{
    let ghost names = v@.map_values(|x: String| x@);
    let mut r: Vec<String> = Vec::new();
    let mut i: usize = 0;
    while i < v.len()
        invariant
            i <= v.len(),
            names == v@.map_values(|x: String| x@),
            r@.map_values(|x: String| x@) == spec_dedup_first(names.take(i as int)),
        decreases v.len() - i,
    {
        proof {
            assert(names.take(i + 1 as int).drop_last() =~= names.take(i as int));
            assert(names.take(i + 1 as int).last() == names[i as int]);
        }
        if !contains_string(&r, &v[i]) {
            r.push(v[i].clone());
            proof {
                assert(r@.map_values(|x: String| x@) =~= spec_dedup_first(names.take(
                    i as int,
                )).push(names[i as int]));
            }
        }
        i = i + 1;
    }
    proof {
        assert(names.take(names.len() as int) =~= names);
    }
    r
}

/// Joining a list of strings with a separator.
pub open spec fn spec_join(parts: Seq<Seq<char>>, sep: Seq<char>) -> Seq<char>
    decreases parts.len(),
{
    if parts.len() == 0 {
        Seq::empty()
    } else if parts.len() == 1 {
        parts[0]
    } else {
        spec_join(parts.drop_last(), sep) + sep + parts.last()
    }
}

/// Joins the strings of `v` with the separator `sep`.
pub fn join_strings(v: &Vec<String>, sep: &str) -> (r: String)
    ensures
        r@ == spec_join(v@.map_values(|x: String| x@), sep@),
{
    let ghost parts = v@.map_values(|x: String| x@);
    let mut r = String::new();
    let mut i: usize = 0;
    while i < v.len()
        invariant
            i <= v.len(),
            parts == v@.map_values(|x: String| x@),
            r@ == spec_join(parts.take(i as int), sep@),
        decreases v.len() - i,
    {
        proof {
            assert(parts.take(i + 1 as int).drop_last() =~= parts.take(i as int));
            assert(parts.take(i + 1 as int).last() == parts[i as int]);
        }
        if i > 0 {
            r.append(sep);
        }
        r.append(v[i].as_str());
        proof {
            if i == 0 {
                assert(Seq::<char>::empty() + parts[0] =~= parts[0]);
            }
        }
        i = i + 1;
    }
    proof {
        assert(parts.take(parts.len() as int) =~= parts);
    }
    r
}


/// Lexicographic order on strings, by character code.
pub open spec fn spec_str_le(a: Seq<char>, b: Seq<char>) -> bool
    decreases a.len(),
{
    if a.len() == 0 {
        true
    } else if b.len() == 0 {
        false
    } else if (a[0] as u32) < (b[0] as u32) {
        true
    } else if (a[0] as u32) > (b[0] as u32) {
        false
    } else {
        spec_str_le(a.drop_first(), b.drop_first())
    }
}

/// Compares two strings lexicographically.
#[verifier::loop_isolation(false)]
pub fn str_le(a: &String, b: &String) -> (r: bool)
    ensures
        r == spec_str_le(a@, b@),
{
    let sa = a.as_str();
    let sb = b.as_str();
    let na = sa.unicode_len();
    let nb = sb.unicode_len();
    proof {
        assert(sa@.skip(0) =~= sa@);
        assert(sb@.skip(0) =~= sb@);
    }
    let mut i: usize = 0;
    while i < na && i < nb
        invariant
            i <= na,
            i <= nb,
            na == sa@.len(),
            nb == sb@.len(),
            spec_str_le(a@, b@) == spec_str_le(sa@.skip(i as int), sb@.skip(i as int)),
        decreases na - i,
    {
        proof {
            assert(sa@.skip(i as int)[0] == sa@[i as int]);
            assert(sb@.skip(i as int)[0] == sb@[i as int]);
            assert(sa@.skip(i as int).drop_first() =~= sa@.skip(i + 1 as int));
            assert(sb@.skip(i as int).drop_first() =~= sb@.skip(i + 1 as int));
        }
        let ca = sa.get_char(i) as u32;
        let cb = sb.get_char(i) as u32;
        if ca < cb {
            return true;
        }
        if ca > cb {
            return false;
        }
        i = i + 1;
    }
    proof {
        if i >= na {
            assert(sa@.skip(i as int).len() == 0);
        } else {
            assert(sb@.skip(i as int).len() == 0);
            assert(sa@.skip(i as int).len() > 0);
        }
    }
    na <= nb
}

/// Inserts a string into the suffix of a sorted list, from position `i` on.
pub open spec fn spec_insert_str_from(sorted: Seq<Seq<char>>, i: int, x: Seq<char>) -> Seq<
    Seq<char>,
>
    decreases sorted.len() - i,
{
    if i < 0 || i >= sorted.len() {
        seq![x]
    } else if spec_str_le(x, sorted[i]) {
        seq![x] + sorted.skip(i)
    } else {
        seq![sorted[i]] + spec_insert_str_from(sorted, i + 1, x)
    }
}

/// Sorting by repeated insertion, from position `i` on.
pub open spec fn spec_sort_strs_from(names: Seq<Seq<char>>, i: int, acc: Seq<Seq<char>>) -> Seq<
    Seq<char>,
>
    decreases names.len() - i,
{
    if i < 0 || i >= names.len() {
        acc
    } else {
        spec_sort_strs_from(names, i + 1, spec_insert_str_from(acc, 0, names[i]))
    }
}

/// Inserts a string into a sorted vector, keeping the order.
#[verifier::loop_isolation(false)]
fn insert_string(sorted: &Vec<String>, from: usize, x: String) -> (r: Vec<String>)
    requires
        from <= sorted@.len(),
    ensures
        strings_view(r@) == spec_insert_str_from(strings_view(sorted@), from as int, x@),
    decreases sorted@.len() - from,
{
    let ghost names = strings_view(sorted@);
    if from == sorted.len() {
        let r = vec![x];
        proof {
            assert(strings_view(r@) =~= seq![x@]);
        }
        r
    } else {
        proof {
            assert(names[from as int] == sorted@[from as int]@);
        }
        if str_le(&x, &sorted[from]) {
            let mut r: Vec<String> = vec![x];
            proof {
                assert(strings_view(r@) =~= seq![r@[0]@]);
                assert(strings_view(r@) + names.skip(from as int).take(0) =~= strings_view(r@));
            }
            let mut i: usize = from;
            while i < sorted.len()
                invariant
                    from <= i <= sorted.len(),
                    strings_view(r@) =~= seq![x@] + names.skip(from as int).take(
                        i - from as int,
                    ),
                decreases sorted.len() - i,
            {
                let ghost before = strings_view(r@);
                r.push(sorted[i].clone());
                proof {
                    assert(strings_view(r@) =~= before.push(names[i as int]));
                    assert(names.skip(from as int).take(i + 1 - from as int) =~= names.skip(
                        from as int,
                    ).take(i - from as int).push(names[i as int]));
                }
                i = i + 1;
            }
            proof {
                assert(names.skip(from as int).take(sorted@.len() - from as int) =~= names.skip(
                    from as int,
                ));
            }
            r
        } else {
            let rest = insert_string(sorted, from + 1, x);
            let mut r: Vec<String> = vec![sorted[from].clone()];
            let ghost head = strings_view(r@);
            let mut tail = rest;
            let ghost tail_view = strings_view(tail@);
            r.append(&mut tail);
            proof {
                assert(head =~= seq![names[from as int]]);
                assert(strings_view(r@) =~= head + tail_view);
            }
            r
        }
    }
}

/// Sorts a vector of strings lexicographically by insertion.
#[verifier::loop_isolation(false)]
pub fn sort_strings(v: &Vec<String>) -> (r: Vec<String>)
    ensures
        strings_view(r@) == spec_sort_strs_from(strings_view(v@), 0, Seq::empty()),
{
    let ghost names = strings_view(v@);
    let mut acc: Vec<String> = Vec::new();
    proof {
        assert(strings_view(acc@) =~= Seq::<Seq<char>>::empty());
    }
    let mut i: usize = 0;
    while i < v.len()
        invariant
            i <= v.len(),
            spec_sort_strs_from(names, 0, Seq::empty()) == spec_sort_strs_from(
                names,
                i as int,
                strings_view(acc@),
            ),
        decreases v.len() - i,
    {
        proof {
            assert(names[i as int] == v@[i as int]@);
        }
        acc = insert_string(&acc, 0, v[i].clone());
        i = i + 1;
    }
    acc
}

} // verus!
