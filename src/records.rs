//! The repository list the crawler writes and reads back, one repository per
//! line as `<owner/name> <stars> <bytes>`; the rule that picks the
//! repositories written mostly in the searched language; and the tally of
//! code search hits per file.
use vstd::prelude::*;

use crate::request::{decimal, decimal_spec, digit_char, DIGITS};

verus! {

/// `s` cut at every space, as `str::split(' ')` cuts it: `k` spaces give
/// `k + 1` fields, some of them perhaps empty.
pub open spec fn split_spaces(s: Seq<char>) -> Seq<Seq<char>>
    decreases s.len(),
{
    if s.len() == 0 {
        seq![Seq::empty()]
    } else if s.last() == ' ' {
        split_spaces(s.drop_last()).push(Seq::empty())
    } else {
        let f = split_spaces(s.drop_last());
        f.update(f.len() - 1, f.last().push(s.last()))
    }
}

pub open spec fn is_digit(c: char) -> bool {
    '0' <= c && c <= '9'
}

pub open spec fn digit_value(c: char) -> nat {
    (c as nat - '0' as nat) as nat
}

/// The number that the decimal digits `ds` write.
pub open spec fn digits_value(ds: Seq<char>) -> nat
    decreases ds.len(),
{
    if ds.len() == 0 {
        0
    } else {
        digits_value(ds.drop_last()) * 10 + digit_value(ds.last())
    }
}

/// `s` without its leading `+`, if any.
pub open spec fn without_plus(s: Seq<char>) -> Seq<char> {
    if s.len() > 0 && s[0] == '+' {
        s.drop_first()
    } else {
        s
    }
}

pub open spec fn all_digits(ds: Seq<char>) -> bool {
    forall|i: int| 0 <= i < ds.len() ==> is_digit(#[trigger] ds[i])
}

/// What `str::parse::<usize>` makes of `s`: an optional `+`, then one or more
/// decimal digits whose value fits in a `usize`.
pub open spec fn parse_usize_spec(s: Seq<char>) -> Option<nat> {
    let ds = without_plus(s);
    if ds.len() > 0 && all_digits(ds) && digits_value(ds) <= usize::MAX {
        Some(digits_value(ds))
    } else {
        None
    }
}

proof fn lemma_digits_value_grows(ds: Seq<char>, i: int, j: int)
    requires
        0 <= i <= j <= ds.len(),
    ensures
        digits_value(ds.take(i)) <= digits_value(ds.take(j)),
    decreases j - i,
{
    if i < j {
        lemma_digits_value_grows(ds, i, j - 1);
        assert(ds.take(j).drop_last() =~= ds.take(j - 1));
    }
}

/// The number written by `s[from..to]`, read as `str::parse::<usize>` reads it.
fn parse_usize_range(s: &str, from: usize, to: usize) -> (r: Option<usize>)
    requires
        from <= to <= s@.len(),
    ensures
        r matches Some(v) ==> parse_usize_spec(s@.subrange(from as int, to as int)) == Some(v as nat),
        r is None ==> parse_usize_spec(s@.subrange(from as int, to as int)) is None,
{
    let ghost t = s@.subrange(from as int, to as int);
    let mut start = from;
    if from < to && s.get_char(from) == '+' {
        start = from + 1;
    }
    let ghost ds = s@.subrange(start as int, to as int);
    proof {
        if from < to && s@[from as int] == '+' {
            assert(ds =~= t.drop_first());
        } else {
            assert(ds =~= t);
        }
    }
    if start == to {
        return None;
    }
    let mut v: usize = 0;
    let mut i = start;
    while i < to
        invariant
            start <= i <= to <= s@.len(),
            ds == s@.subrange(start as int, to as int),
            t == s@.subrange(from as int, to as int),
            ds == without_plus(t),
            ds.len() > 0,
            forall|k: int| 0 <= k < i - start ==> is_digit(#[trigger] ds[k]),
            v == digits_value(ds.take(i - start)),
        decreases to - i,
    {
        let c = s.get_char(i);
        if c < '0' || c > '9' {
            proof {
                let k = i - start;
                assert(ds[k] == c);
                assert(!is_digit(ds[k]));
            }
            return None;
        }
        let d = (c as u32 - '0' as u32) as usize;
        proof {
            assert(ds.take(i - start + 1).drop_last() =~= ds.take(i - start));
            assert(ds.take(i - start + 1).last() == c);
        }
        if v > (usize::MAX - d) / 10 {
            proof {
                lemma_digits_value_grows(ds, i - start + 1, ds.len() as int);
                assert(ds.take(ds.len() as int) =~= ds);
            }
            return None;
        }
        v = v * 10 + d;
        i = i + 1;
    }
    proof {
        assert(ds.take(i - start) =~= ds);
    }
    Some(v)
}

/// The text of each field, given by its bounds in `s`.
pub open spec fn fields_of(s: Seq<char>, bounds: Seq<(usize, usize)>) -> Seq<Seq<char>> {
    bounds.map_values(|b: (usize, usize)| s.subrange(b.0 as int, b.1 as int))
}

/// A line of the repository list: its first field is the repository's name,
/// its second and third, read as numbers, its stars and its bytes of code in
/// the searched language; further fields are ignored. Other lines hold no
/// repository.
pub open spec fn repo_line_spec(line: Seq<char>) -> Option<(Seq<char>, nat, nat)> {
    let f = split_spaces(line);
    if f.len() >= 3 && parse_usize_spec(f[1]) is Some && parse_usize_spec(f[2]) is Some {
        Some((f[0], parse_usize_spec(f[1]).unwrap(), parse_usize_spec(f[2]).unwrap()))
    } else {
        None
    }
}

/// The name, stars and bytes that a line of the repository list holds.
pub fn parse_repo_line(line: &str) -> (r: Option<(String, usize, usize)>)
    ensures
        match repo_line_spec(line@) {
            Some((name, stars, bytes)) => r matches Some(x) && x.0@ == name && x.1 == stars && x.2
                == bytes,
            None => r is None,
        },
{
    let n = line.unicode_len();
    let mut bounds: Vec<(usize, usize)> = Vec::new();
    let mut start: usize = 0;
    let mut i: usize = 0;
    proof {
        assert(line@.take(0) =~= Seq::<char>::empty());
        assert(fields_of(line@, bounds@).push(line@.subrange(0, 0)) =~= seq![Seq::<char>::empty()]);
    }
    while i < n
        invariant
            i <= n,
            n == line@.len(),
            start <= i,
            forall|k: int| 0 <= k < bounds@.len() ==> #[trigger] bounds@[k].0 <= bounds@[k].1 <= i,
            split_spaces(line@.take(i as int)) == fields_of(line@, bounds@).push(
                line@.subrange(start as int, i as int),
            ),
        decreases n - i,
    {
        let c = line.get_char(i);
        let ghost prev = fields_of(line@, bounds@);
        let ghost s0 = start;
        let ghost t1 = line@.take(i + 1);
        proof {
            assert(t1.drop_last() =~= line@.take(i as int));
            assert(t1.last() == c);
        }
        if c == ' ' {
            let ghost bounds0 = bounds@;
            bounds.push((start, i));
            start = i + 1;
            proof {
                assert forall|k: int| 0 <= k < bounds@.len() implies #[trigger] bounds@[k].0 <= bounds@[k].1 <= i + 1 by {
                    if k < bounds0.len() {
                        assert(bounds@[k] == bounds0[k]);
                    }
                }
                assert(split_spaces(t1) == split_spaces(t1.drop_last()).push(Seq::<char>::empty()));
                assert(fields_of(line@, bounds@) =~= prev.push(line@.subrange(s0 as int, i as int)));
                assert(line@.subrange(start as int, i + 1) =~= Seq::<char>::empty());
            }
        } else {
            proof {
                let f = split_spaces(t1.drop_last());
                assert(split_spaces(t1) == f.update(f.len() - 1, f.last().push(c)));
                assert(line@.subrange(start as int, i + 1) =~= line@.subrange(start as int, i as int).push(c));
                assert(f.update(f.len() - 1, f.last().push(c)) =~= prev.push(line@.subrange(start as int, i + 1)));
            }
        }
        i = i + 1;
    }
    let ghost before = fields_of(line@, bounds@);
    bounds.push((start, n));
    proof {
        assert(line@.take(n as int) =~= line@);
        assert(fields_of(line@, bounds@) =~= before.push(line@.subrange(start as int, n as int)));
    }
    if bounds.len() < 3 {
        return None;
    }
    let (name_from, name_to) = bounds[0];
    let (stars_from, stars_to) = bounds[1];
    let (bytes_from, bytes_to) = bounds[2];
    let stars = match parse_usize_range(line, stars_from, stars_to) {
        Some(v) => v,
        None => return None,
    };
    let bytes = match parse_usize_range(line, bytes_from, bytes_to) {
        Some(v) => v,
        None => return None,
    };
    let name = String::from_str(line.substring_char(name_from, name_to));
    Some((name, stars, bytes))
}

/// Whether a repository is written mostly in the searched language: at
/// least half of its bytes of code are in it.
pub fn is_mostly_language(lang_bytes: usize, total_bytes: usize) -> (r: bool)
    ensures
        r == (2 * lang_bytes >= total_bytes),
{
    lang_bytes >= total_bytes || lang_bytes >= total_bytes - lang_bytes
}

/// How many times `x` occurs in `s`.
pub open spec fn count_of(s: Seq<Seq<char>>, x: Seq<char>) -> nat
    decreases s.len(),
{
    if s.len() == 0 {
        0
    } else {
        count_of(s.drop_last(), x) + if s.last() == x { 1nat } else { 0nat }
    }
}

/// The text of each string.
pub open spec fn string_views(v: Seq<String>) -> Seq<Seq<char>> {
    v.map_values(|p: String| p@)
}

proof fn lemma_count_of_bound(s: Seq<Seq<char>>, x: Seq<char>)
    ensures
        count_of(s, x) <= s.len(),
    decreases s.len(),
{
    if s.len() > 0 {
        lemma_count_of_bound(s.drop_last(), x);
    }
}

proof fn lemma_count_of_absent(s: Seq<Seq<char>>, x: Seq<char>)
    requires
        forall|m: int| 0 <= m < s.len() ==> s[m] != x,
    ensures
        count_of(s, x) == 0,
    decreases s.len(),
{
    if s.len() > 0 {
        lemma_count_of_absent(s.drop_last(), x);
    }
}

/// The index of the entry of `keys` equal to `p`, if any.
fn find_key(keys: &Vec<String>, p: &String) -> (r: Option<usize>)
    ensures
        r matches Some(j) ==> j < keys@.len() && keys@[j as int]@ == p@,
        r is None ==> forall|m: int| 0 <= m < keys@.len() ==> #[trigger] keys@[m]@ != p@,
{
    let mut j: usize = 0;
    while j < keys.len()
        invariant
            j <= keys@.len(),
            forall|m: int| 0 <= m < j ==> #[trigger] keys@[m]@ != p@,
        decreases keys@.len() - j,
    {
        if keys[j] == *p {
            return Some(j);
        }
        j = j + 1;
    }
    None
}

/// Whether `x` has an entry in `r`.
pub open spec fn is_tallied(r: Seq<(String, usize)>, x: Seq<char>) -> bool {
    exists|j: int| 0 <= j < r.len() && #[trigger] r[j].0@ == x
}

/// Each distinct string of `paths` with the number of times it occurs, in
/// the order of first occurrence.
pub fn tally_paths(paths: &Vec<String>) -> (r: Vec<(String, usize)>)
    ensures
        forall|j: int|
            0 <= j < r@.len() ==> #[trigger] r@[j].1 == count_of(string_views(paths@), r@[j].0@)
                && r@[j].1 >= 1,
        forall|j: int, k: int| 0 <= j < k < r@.len() ==> #[trigger] r@[j].0@ != #[trigger] r@[k].0@,
        forall|i: int| 0 <= i < paths@.len() ==> is_tallied(r@, #[trigger] paths@[i]@),
{
    let ghost views = string_views(paths@);
    let mut keys: Vec<String> = Vec::new();
    let mut counts: Vec<usize> = Vec::new();
    let mut i: usize = 0;
    while i < paths.len()
        invariant
            i <= paths@.len(),
            views == string_views(paths@),
            keys@.len() == counts@.len(),
            forall|j: int|
                0 <= j < keys@.len() ==> #[trigger] counts@[j] == count_of(views.take(i as int), keys@[j]@)
                    && 1 <= counts@[j] <= i,
            forall|j: int, k: int| 0 <= j < k < keys@.len() ==> #[trigger] keys@[j]@ != #[trigger] keys@[k]@,
            forall|m: int|
                0 <= m < i ==> exists|j: int| 0 <= j < keys@.len() && #[trigger] keys@[j]@ == #[trigger] views[m],
        decreases paths@.len() - i,
    {
        let p = &paths[i];
        let ghost t = views.take(i + 1);
        let ghost prev = views.take(i as int);
        let ghost keys0 = keys@;
        let ghost counts0 = counts@;
        proof {
            assert(t.drop_last() =~= prev);
            assert(views[i as int] == p@);
            assert(t.last() == p@);
        }
        let found = find_key(&keys, p);
        match found {
            Some(j) => {
                let c = counts[j];
                proof {
                    lemma_count_of_bound(prev, p@);
                }
                counts.set(j, c + 1);
            },
            None => {
                keys.push(p.clone());
                counts.push(1);
                proof {
                    assert forall|m: int| 0 <= m < prev.len() implies prev[m] != p@ by {
                        let j0 = choose|j: int| 0 <= j < keys0.len() && #[trigger] keys0[j]@ == #[trigger] views[m];
                        assert(keys0[j0]@ != p@);
                    }
                    lemma_count_of_absent(prev, p@);
                }
            },
        }
        proof {
            assert forall|j: int| 0 <= j < keys@.len() implies #[trigger] counts@[j] == count_of(t, keys@[j]@)
                && 1 <= counts@[j] <= i + 1 by {
                if j < keys0.len() {
                    assert(keys@[j] == keys0[j]);
                    if keys0[j]@ != p@ {
                        assert(counts@[j] == counts0[j]);
                    }
                }
            }
            assert forall|m: int| 0 <= m < i + 1 implies exists|j: int|
                0 <= j < keys@.len() && #[trigger] keys@[j]@ == #[trigger] views[m] by {
                if m < i {
                    let j0 = choose|j: int| 0 <= j < keys0.len() && #[trigger] keys0[j]@ == #[trigger] views[m];
                    assert(keys@[j0] == keys0[j0]);
                } else {
                    match found {
                        Some(j) => {
                            assert(keys@[j as int]@ == views[m]);
                        },
                        None => {
                            assert(keys@[keys0.len() as int]@ == views[m]);
                        },
                    }
                }
            }
        }
        i = i + 1;
    }
    let mut r: Vec<(String, usize)> = Vec::new();
    let mut j: usize = 0;
    while j < keys.len()
        invariant
            j <= keys@.len(),
            keys@.len() == counts@.len(),
            r@.len() == j,
            forall|k: int| 0 <= k < j ==> #[trigger] r@[k].0@ == keys@[k]@ && r@[k].1 == counts@[k],
        decreases keys@.len() - j,
    {
        r.push((keys[j].clone(), counts[j]));
        j = j + 1;
    }
    proof {
        assert(views.take(i as int) =~= views);
        assert forall|m: int| 0 <= m < paths@.len() implies is_tallied(r@, #[trigger] paths@[m]@) by {
            assert(views[m] == paths@[m]@);
            let j0 = choose|j: int| 0 <= j < keys@.len() && #[trigger] keys@[j]@ == #[trigger] views[m];
            assert(r@[j0].0@ == keys@[j0]@);
            assert(0 <= j0 < r@.len() && r@[j0].0@ == paths@[m]@);
        }
    }
    r
}

/// The line of the repository list for a repository: `<name> <stars> <bytes>`.
pub open spec fn repo_line_text(name: Seq<char>, stars: nat, bytes: nat) -> Seq<char> {
    name + seq![' '] + decimal_spec(stars) + seq![' '] + decimal_spec(bytes)
}

/// The line of the repository list for a repository, without its line break.
pub fn format_repo_line(name: &str, stars: usize, bytes: usize) -> (r: String)
    ensures
        r@ == repo_line_text(name@, stars as nat, bytes as nat),
{
    let mut s = String::from_str(name);
    s.append(" ");
    let a = decimal(stars);
    s.append(a.as_str());
    s.append(" ");
    let b = decimal(bytes);
    s.append(b.as_str());
    proof {
        reveal_strlit(" ");
        assert(s@ =~= repo_line_text(name@, stars as nat, bytes as nat));
    }
    s
}

pub open spec fn has_no_space(s: Seq<char>) -> bool {
    forall|i: int| 0 <= i < s.len() ==> #[trigger] s[i] != ' '
}

proof fn lemma_split_no_space(s: Seq<char>)
    requires
        has_no_space(s),
    ensures
        split_spaces(s) == seq![s],
    decreases s.len(),
{
    if s.len() > 0 {
        assert(has_no_space(s.drop_last()));
        lemma_split_no_space(s.drop_last());
        assert(s.drop_last().push(s.last()) =~= s);
        assert(seq![s.drop_last()].update(0, s.drop_last().push(s.last())) =~= seq![s]);
    } else {
        assert(s =~= Seq::<char>::empty());
    }
}

proof fn lemma_split_at_space(x: Seq<char>, y: Seq<char>)
    ensures
        split_spaces(x + seq![' '] + y) == split_spaces(x).push(Seq::empty()).drop_last() + split_spaces(y),
    decreases y.len(),
{
    let xs = x + seq![' '];
    if y.len() == 0 {
        assert(xs + y =~= xs);
        assert(xs.drop_last() =~= x);
        assert(split_spaces(x).push(Seq::empty()).drop_last() =~= split_spaces(x));
        assert(split_spaces(y) == seq![Seq::<char>::empty()]);
        assert(split_spaces(x).push(Seq::<char>::empty()) =~= split_spaces(x) + seq![Seq::<char>::empty()]);
    } else {
        lemma_split_at_space(x, y.drop_last());
        assert((xs + y).drop_last() =~= xs + y.drop_last());
        assert((xs + y).last() == y.last());
        assert(split_spaces(x).push(Seq::empty()).drop_last() =~= split_spaces(x));
        let a = split_spaces(x);
        let b = split_spaces(y.drop_last());
        if y.last() == ' ' {
            assert((a + b).push(Seq::empty()) =~= a + b.push(Seq::empty()));
        } else {
            assert(b.len() > 0) by {
                lemma_split_nonempty(y.drop_last());
            }
            assert((a + b).update((a + b).len() - 1, (a + b).last().push(y.last())) =~= a + b.update(
                b.len() - 1,
                b.last().push(y.last()),
            ));
        }
    }
}

proof fn lemma_split_nonempty(s: Seq<char>)
    ensures
        split_spaces(s).len() > 0,
    decreases s.len(),
{
    if s.len() > 0 {
        lemma_split_nonempty(s.drop_last());
    }
}

proof fn lemma_decimal_digits(n: nat)
    ensures
        decimal_spec(n).len() > 0,
        all_digits(decimal_spec(n)),
        has_no_space(decimal_spec(n)),
        decimal_spec(n)[0] != '+',
        digits_value(decimal_spec(n)) == n,
    decreases n,
{
    reveal_strlit("0123456789");
    assert(forall|d: nat| d < 10 ==> #[trigger] digit_value(digit_char(d)) == d && is_digit(digit_char(d)));
    if n >= 10 {
        lemma_decimal_digits(n / 10);
        let p = decimal_spec(n / 10);
        let s = decimal_spec(n);
        assert(s == p.push(digit_char(n % 10)));
        assert(s.drop_last() =~= p);
        assert(s.last() == digit_char(n % 10));
        assert(digit_value(digit_char(n % 10)) == n % 10);
        assert(digits_value(s) == digits_value(p) * 10 + digit_value(s.last()));
        assert((n / 10) * 10 + n % 10 == n);
        assert forall|i: int| 0 <= i < s.len() implies is_digit(#[trigger] s[i]) && s[i] != ' ' by {
            if i < p.len() {
                assert(s[i] == p[i]);
                assert(is_digit(p[i]));
            }
        }
    } else {
        let s = decimal_spec(n);
        assert(s.drop_last() =~= Seq::<char>::empty());
        assert(s.last() == digit_char(n));
        assert(digit_value(digit_char(n)) == n);
        assert(digits_value(s) == digits_value(s.drop_last()) * 10 + digit_value(s.last()));
    }
}

/// Reading back the line written for a repository gives its name, stars and
/// bytes, provided the name holds no space.
pub proof fn lemma_repo_line_round_trip(name: Seq<char>, stars: nat, bytes: nat)
    requires
        has_no_space(name),
        stars <= usize::MAX,
        bytes <= usize::MAX,
    ensures
        repo_line_spec(repo_line_text(name, stars, bytes)) == Some((name, stars, bytes)),
{
    let a = decimal_spec(stars);
    let b = decimal_spec(bytes);
    lemma_decimal_digits(stars);
    lemma_decimal_digits(bytes);
    lemma_split_no_space(name);
    lemma_split_no_space(a);
    lemma_split_no_space(b);
    lemma_split_at_space(name + seq![' '] + a, b);
    lemma_split_at_space(name, a);
    let f = split_spaces(repo_line_text(name, stars, bytes));
    assert(seq![name].push(Seq::empty()).drop_last() =~= seq![name]);
    assert(split_spaces(name + seq![' '] + a).push(Seq::empty()).drop_last() =~= split_spaces(name + seq![' '] + a));
    assert(f =~= seq![name, a, b]);
    assert(without_plus(a) == a);
    assert(without_plus(b) == b);
}

} // verus!
