//! Character and string primitives shared by the whole crate: ASCII case
//! folding, substring search, whitespace splitting, and decimal rendering.
use vstd::prelude::*;

verus! {

/// The whitespace characters that token splitting recognises.
pub open spec fn is_space(c: char) -> bool {
    c == ' ' || c == '\t' || c == '\n' || c == '\r'
}

pub fn is_space_exec(c: char) -> (r: bool)
    ensures
        r == is_space(c),
{
    c == ' ' || c == '\t' || c == '\n' || c == '\r'
}

/// ASCII lower-casing of one character; other characters are left unchanged.
pub open spec fn spec_lower_char(c: char) -> char {
    if 'A' <= c && c <= 'Z' {
        (((c as u8) + 32) as char)
    } else {
        c
    }
}

/// ASCII lower-casing of a whole sequence.
pub open spec fn spec_lower(s: Seq<char>) -> Seq<char> {
    s.map_values(|c: char| spec_lower_char(c))
}

pub fn lower_char(c: char) -> (r: char)
    ensures
        r == spec_lower_char(c),
{
    if 'A' <= c && c <= 'Z' {
        ((c as u8) + 32) as char
    } else {
        c
    }
}

/// Relies on std's String::push: appends exactly one character at the end.
#[verifier::external_body]
pub fn push_char(s: &mut String, c: char)
    ensures
        final(s)@ == old(s)@.push(c),
{
    s.push(c)
}

/// Lower-cases a string, character by character.
pub fn lower_str(s: &str) -> (r: String)
    ensures
        r@ == spec_lower(s@),
{
    let n = s.unicode_len();
    let mut r = String::new();
    let mut i: usize = 0;
    while i < n
        invariant
            n == s@.len(),
            i <= n,
            r@ == spec_lower(s@.take(i as int)),
        decreases n - i,
    {
        let c = lower_char(s.get_char(i));
        push_char(&mut r, c);
        proof {
            assert(s@.take(i + 1 as int) =~= s@.take(i as int).push(s@[i as int]));
            assert(spec_lower(s@.take(i + 1 as int)) =~= spec_lower(s@.take(i as int)).push(
                spec_lower_char(s@[i as int]),
            ));
        }
        i = i + 1;
    }
    proof {
        assert(s@.take(n as int) =~= s@);
    }
    r
}

/// Whether the characters of `a` and `b` agree from position `i` on.
fn str_eq_from(a: &str, b: &str, i: usize) -> (r: bool)
    requires
        a@.len() == b@.len(),
        i <= a@.len(),
    ensures
        r == (a@.skip(i as int) == b@.skip(i as int)),
    decreases a@.len() - i,
{
    if i == a.unicode_len() {
        proof {
            assert(a@.skip(i as int) =~= b@.skip(i as int));
        }
        true
    } else {
        let ca = a.get_char(i);
        let cb = b.get_char(i);
        if ca == cb {
            let r = str_eq_from(a, b, i + 1);
            proof {
                if a@.skip(i + 1 as int) == b@.skip(i + 1 as int) {
                    assert forall|k: int| 0 <= k < a@.skip(i as int).len() implies a@.skip(
                        i as int,
                    )[k] == b@.skip(i as int)[k] by {
                        if k > 0 {
                            assert(a@.skip(i as int)[k] == a@.skip(i + 1 as int)[k - 1]);
                            assert(b@.skip(i as int)[k] == b@.skip(i + 1 as int)[k - 1]);
                        }
                    }
                    assert(a@.skip(i as int) =~= b@.skip(i as int));
                } else {
                    if a@.skip(i as int) == b@.skip(i as int) {
                        assert(a@.skip(i + 1 as int) =~= a@.skip(i as int).drop_first());
                        assert(b@.skip(i + 1 as int) =~= b@.skip(i as int).drop_first());
                    }
                }
            }
            r
        } else {
            proof {
                if a@.skip(i as int) == b@.skip(i as int) {
                    assert(a@.skip(i as int)[0] == a@[i as int]);
                    assert(b@.skip(i as int)[0] == b@[i as int]);
                }
            }
            false
        }
    }
}

/// String equality by contents.
pub fn str_eq(a: &str, b: &str) -> (r: bool)
    ensures
        r == (a@ == b@),
{
    if a.unicode_len() != b.unicode_len() {
        proof {
            if a@ == b@ {
                assert(a@.len() == b@.len());
            }
        }
        false
    } else {
        let r = str_eq_from(a, b, 0);
        proof {
            assert(a@.skip(0) =~= a@);
            assert(b@.skip(0) =~= b@);
        }
        r
    }
}

/// `needle` occurs in `hay` starting at position `at`.
pub open spec fn matches_at(hay: Seq<char>, needle: Seq<char>, at: int) -> bool {
    &&& 0 <= at
    &&& at + needle.len() <= hay.len()
    &&& hay.subrange(at, at + needle.len()) == needle
}

/// `needle` occurs somewhere in `hay`.
pub open spec fn spec_contains(hay: Seq<char>, needle: Seq<char>) -> bool {
    exists|at: int| matches_at(hay, needle, at)
}

/// `p` is a prefix of `s`.
pub open spec fn spec_starts_with(s: Seq<char>, p: Seq<char>) -> bool {
    p.len() <= s.len() && s.take(p.len() as int) == p
}

fn matches_at_exec(hay: &str, needle: &str, at: usize) -> (r: bool)
    requires
        at + needle@.len() <= hay@.len() <= usize::MAX,
    ensures
        r == matches_at(hay@, needle@, at as int),
{
    let n = needle.unicode_len();
    let mut j: usize = 0;
    while j < n
        invariant
            n == needle@.len(),
            j <= n,
            at + n <= hay@.len() <= usize::MAX,
            hay@.subrange(at as int, at + j) =~= needle@.take(j as int),
        decreases n - j,
    {
        let hc = hay.get_char(at + j);
        let nc = needle.get_char(j);
        if hc != nc {
            proof {
                if matches_at(hay@, needle@, at as int) {
                    assert(hay@.subrange(at as int, at + n)[j as int] == needle@[j as int]);
                }
            }
            return false;
        }
        proof {
            assert(hay@.subrange(at as int, at + j + 1) =~= hay@.subrange(at as int, at + j).push(
                hay@[at + j],
            ));
            assert(needle@.take(j + 1 as int) =~= needle@.take(j as int).push(needle@[j as int]));
        }
        j = j + 1;
    }
    proof {
        assert(needle@.take(n as int) =~= needle@);
    }
    true
}

/// Substring search by contents.
pub fn contains_str(hay: &str, needle: &str) -> (r: bool)
    ensures
        r == spec_contains(hay@, needle@),
{
    let hn = hay.unicode_len();
    let nn = needle.unicode_len();
    if nn > hn {
        proof {
            if spec_contains(hay@, needle@) {
                let at = choose|at: int| matches_at(hay@, needle@, at);
                assert(at + needle@.len() <= hay@.len());
            }
        }
        return false;
    }
    if nn == 0 {
        proof {
            assert(hay@.subrange(0, 0) =~= needle@);
            assert(matches_at(hay@, needle@, 0));
        }
        return true;
    }
    let mut i: usize = 0;
    while i <= hn - nn
        invariant
            hn == hay@.len(),
            nn == needle@.len(),
            1 <= nn <= hn,
            i <= hn - nn + 1,
            forall|at: int| 0 <= at < i ==> !matches_at(hay@, needle@, at),
        decreases hn - i,
    {
        if matches_at_exec(hay, needle, i) {
            return true;
        }
        i = i + 1;
    }
    proof {
        if spec_contains(hay@, needle@) {
            let at = choose|at: int| matches_at(hay@, needle@, at);
            assert(at + nn <= hn);
            assert(!matches_at(hay@, needle@, at));
        }
    }
    false
}

/// Prefix test by contents.
pub fn starts_with_str(s: &str, p: &str) -> (r: bool)
    ensures
        r == spec_starts_with(s@, p@),
{
    let sn = s.unicode_len();
    let pn = p.unicode_len();
    if pn > sn {
        return false;
    }
    let r = matches_at_exec(s, p, 0);
    proof {
        assert(s@.subrange(0, p@.len() as int) =~= s@.take(p@.len() as int));
    }
    r
}

/// The length of the leading run of non-space characters.
pub open spec fn token_len(s: Seq<char>) -> nat
    decreases s.len(),
{
    if s.len() == 0 || is_space(s[0]) {
        0
    } else {
        1 + token_len(s.drop_first())
    }
}

pub proof fn lemma_token_len_bound(s: Seq<char>)
    ensures
        token_len(s) <= s.len(),
        forall|k: int| 0 <= k < token_len(s) ==> !is_space(s[k]),
        token_len(s) < s.len() ==> is_space(s[token_len(s) as int]),
    decreases s.len(),
{
    if s.len() == 0 || is_space(s[0]) {
    } else {
        lemma_token_len_bound(s.drop_first());
        assert forall|k: int| 0 <= k < token_len(s) implies !is_space(s[k]) by {
            if k > 0 {
                assert(!is_space(s.drop_first()[k - 1]));
            }
        }
        if token_len(s) < s.len() {
            assert(s[token_len(s) as int] == s.drop_first()[token_len(s.drop_first()) as int]);
        }
    }
}

/// The words of `s`: maximal runs of non-space characters, in order.
pub open spec fn split_ws(s: Seq<char>) -> Seq<Seq<char>>
    decreases s.len(),
    via split_ws_decreases
{
    if s.len() == 0 {
        seq![]
    } else if is_space(s[0]) {
        split_ws(s.drop_first())
    } else {
        let t = token_len(s) as int;
        seq![s.take(t)] + split_ws(s.skip(t))
    }
}

#[via_fn]
proof fn split_ws_decreases(s: Seq<char>) {
    if s.len() > 0 && !is_space(s[0]) {
        lemma_token_len_bound(s);
        assert(token_len(s) == 1 + token_len(s.drop_first()));
    }
}

/// Finds the end of the token that starts at `i`.
fn token_end(s: &str, i: usize) -> (j: usize)
    requires
        i <= s@.len(),
    ensures
        i <= j <= s@.len(),
        j - i == token_len(s@.skip(i as int)),
    decreases s@.len() - i,
{
    if i == s.unicode_len() {
        i
    } else if is_space_exec(s.get_char(i)) {
        proof {
            assert(s@.skip(i as int)[0] == s@[i as int]);
        }
        i
    } else {
        let j = token_end(s, i + 1);
        proof {
            assert(s@.skip(i as int)[0] == s@[i as int]);
            assert(s@.skip(i as int).drop_first() =~= s@.skip(i + 1 as int));
        }
        j
    }
}

/// Splits a string into its whitespace-separated words.
pub fn split_whitespace(s: &str) -> (r: Vec<String>)
    ensures
        r@.map_values(|t: String| t@) == split_ws(s@),
{
    let r = split_from(s, 0);
    proof {
        assert(s@.skip(0) =~= s@);
    }
    r
}

fn split_from(s: &str, i: usize) -> (r: Vec<String>)
    requires
        i <= s@.len(),
    ensures
        r@.map_values(|t: String| t@) == split_ws(s@.skip(i as int)),
    decreases s@.len() - i,
{
    if i == s.unicode_len() {
        let r: Vec<String> = Vec::new();
        proof {
            assert(s@.skip(i as int) =~= Seq::<char>::empty());
            assert(r@.map_values(|t: String| t@) =~= split_ws(s@.skip(i as int)));
        }
        r
    } else if is_space_exec(s.get_char(i)) {
        let r = split_from(s, i + 1);
        proof {
            assert(s@.skip(i as int)[0] == s@[i as int]);
            assert(s@.skip(i as int).drop_first() =~= s@.skip(i + 1 as int));
        }
        r
    } else {
        let j = token_end(s, i);
        proof {
            assert(s@.skip(i as int)[0] == s@[i as int]);
            lemma_token_len_bound(s@.skip(i as int));
        }
        let tok: String = s.substring_char(i, j).to_owned();
        let rest = split_from(s, j);
        let mut r: Vec<String> = Vec::new();
        r.push(tok);
        let mut k: usize = 0;
        let n = rest.len();
        while k < n
            invariant
                n == rest@.len(),
                k <= n,
                r@.len() == 1 + k,
                r@[0]@ == s@.subrange(i as int, j as int),
                forall|m: int| 0 <= m < k ==> r@[m + 1] == rest@[m],
            decreases n - k,
        {
            let e = rest[k].clone();
            assert(e@ == rest@[k as int]@);
            r.push(e);
            k = k + 1;
        }
        proof {
            let t = token_len(s@.skip(i as int)) as int;
            assert(s@.skip(i as int).take(t) =~= s@.subrange(i as int, j as int));
            assert(s@.skip(i as int).skip(t) =~= s@.skip(j as int));
            assert(r@.map_values(|t2: String| t2@) =~= seq![s@.skip(i as int).take(t)]
                + rest@.map_values(|t2: String| t2@));
        }
        r
    }
}

/// The length of the leading run of characters before a newline.
pub open spec fn line_len(s: Seq<char>) -> nat
    decreases s.len(),
{
    if s.len() == 0 || s[0] == '\n' {
        0
    } else {
        1 + line_len(s.drop_first())
    }
}

pub proof fn lemma_line_len_bound(s: Seq<char>)
    ensures
        line_len(s) <= s.len(),
        forall|k: int| 0 <= k < line_len(s) ==> s[k] != '\n',
        line_len(s) < s.len() ==> s[line_len(s) as int] == '\n',
    decreases s.len(),
{
    if s.len() == 0 || s[0] == '\n' {
    } else {
        lemma_line_len_bound(s.drop_first());
        assert forall|k: int| 0 <= k < line_len(s) implies s[k] != '\n' by {
            if k > 0 {
                assert(s.drop_first()[k - 1] != '\n');
            }
        }
        if line_len(s) < s.len() {
            assert(s[line_len(s) as int] == s.drop_first()[line_len(s.drop_first()) as int]);
        }
    }
}

/// The lines of `s`, split at newline characters; one trailing newline
/// yields no extra empty line, as std's line iterator has it.
pub open spec fn lines_of(s: Seq<char>) -> Seq<Seq<char>>
    decreases s.len(),
    via lines_of_decreases
{
    if s.len() == 0 {
        seq![]
    } else {
        let l = line_len(s) as int;
        if l == s.len() {
            seq![s]
        } else {
            seq![s.take(l)] + lines_of(s.skip(l + 1))
        }
    }
}

#[via_fn]
proof fn lines_of_decreases(s: Seq<char>) {
    if s.len() > 0 {
        lemma_line_len_bound(s);
    }
}

/// Finds the end of the line that starts at `i`.
fn line_end(s: &str, i: usize) -> (j: usize)
    requires
        i <= s@.len(),
    ensures
        i <= j <= s@.len(),
        j - i == line_len(s@.skip(i as int)),
    decreases s@.len() - i,
{
    if i == s.unicode_len() {
        i
    } else if s.get_char(i) == '\n' {
        proof {
            assert(s@.skip(i as int)[0] == s@[i as int]);
        }
        i
    } else {
        let j = line_end(s, i + 1);
        proof {
            assert(s@.skip(i as int)[0] == s@[i as int]);
            assert(s@.skip(i as int).drop_first() =~= s@.skip(i + 1 as int));
        }
        j
    }
}

/// Splits a string into lines at newline characters.
pub fn split_lines(s: &str) -> (r: Vec<String>)
    ensures
        r@.map_values(|t: String| t@) == lines_of(s@),
{
    let r = lines_from(s, 0);
    proof {
        assert(s@.skip(0) =~= s@);
    }
    r
}

fn lines_from(s: &str, i: usize) -> (r: Vec<String>)
    requires
        i <= s@.len(),
    ensures
        r@.map_values(|t: String| t@) == lines_of(s@.skip(i as int)),
    decreases s@.len() - i,
{
    let n = s.unicode_len();
    if i == n {
        let r: Vec<String> = Vec::new();
        proof {
            assert(s@.skip(i as int) =~= Seq::<char>::empty());
            assert(r@.map_values(|t: String| t@) =~= lines_of(s@.skip(i as int)));
        }
        r
    } else {
        let j = line_end(s, i);
        proof {
            lemma_line_len_bound(s@.skip(i as int));
        }
        let tok: String = s.substring_char(i, j).to_owned();
        if j == n {
            let mut r: Vec<String> = Vec::new();
            r.push(tok);
            proof {
                assert(s@.skip(i as int).take(line_len(s@.skip(i as int)) as int) =~= s@.subrange(
                    i as int,
                    j as int,
                ));
                assert(line_len(s@.skip(i as int)) == s@.skip(i as int).len());
                assert(s@.skip(i as int) =~= s@.subrange(i as int, j as int));
                assert(r@.map_values(|t: String| t@) =~= lines_of(s@.skip(i as int)));
            }
            r
        } else {
            let rest = lines_from(s, j + 1);
            let mut r: Vec<String> = Vec::new();
            r.push(tok);
            let mut k: usize = 0;
            let m = rest.len();
            while k < m
                invariant
                    m == rest@.len(),
                    k <= m,
                    r@.len() == 1 + k,
                    r@[0]@ == s@.subrange(i as int, j as int),
                    forall|q: int| 0 <= q < k ==> r@[q + 1] == rest@[q],
                decreases m - k,
            {
                let e = rest[k].clone();
                assert(e@ == rest@[k as int]@);
                r.push(e);
                k = k + 1;
            }
            proof {
                let l = line_len(s@.skip(i as int)) as int;
                assert(s@.skip(i as int).take(l) =~= s@.subrange(i as int, j as int));
                assert(s@.skip(i as int).skip(l + 1) =~= s@.skip(j + 1 as int));
                assert(r@.map_values(|t2: String| t2@) =~= seq![s@.skip(i as int).take(l)]
                    + rest@.map_values(|t2: String| t2@));
            }
            r
        }
    }
}

/// How many whitespace characters the sequence starts with.
pub open spec fn lead_spaces(s: Seq<char>) -> nat
    decreases s.len(),
{
    if s.len() == 0 || !is_space(s[0]) {
        0
    } else {
        1 + lead_spaces(s.drop_first())
    }
}

/// How many whitespace characters the sequence ends with.
pub open spec fn trail_spaces(s: Seq<char>) -> nat
    decreases s.len(),
{
    if s.len() == 0 || !is_space(s.last()) {
        0
    } else {
        1 + trail_spaces(s.drop_last())
    }
}

proof fn lemma_lead_spaces_bound(s: Seq<char>)
    ensures
        lead_spaces(s) <= s.len(),
    decreases s.len(),
{
    if s.len() > 0 && is_space(s[0]) {
        lemma_lead_spaces_bound(s.drop_first());
    }
}

proof fn lemma_trail_spaces_bound(s: Seq<char>)
    ensures
        trail_spaces(s) <= s.len(),
    decreases s.len(),
{
    if s.len() > 0 && is_space(s.last()) {
        lemma_trail_spaces_bound(s.drop_last());
    }
}

/// `s` without its leading and trailing whitespace.
pub open spec fn trim_sp(s: Seq<char>) -> Seq<char>
    decreases s.len(),
{
    if s.len() == 0 {
        s
    } else if is_space(s[0]) {
        trim_sp(s.drop_first())
    } else if is_space(s.last()) {
        trim_sp(s.drop_last())
    } else {
        s
    }
}

/// Trims whitespace from both ends.
pub fn trim_exec(s: &str) -> (r: String)
    ensures
        r@ == trim_sp(s@),
{
    let r = trim_from(s, 0, s.unicode_len());
    proof {
        assert(s@.subrange(0, s@.len() as int) =~= s@);
    }
    r
}

fn trim_from(s: &str, lo: usize, hi: usize) -> (r: String)
    requires
        lo <= hi <= s@.len(),
    ensures
        r@ == trim_sp(s@.subrange(lo as int, hi as int)),
    decreases hi - lo,
{
    if lo == hi {
        proof {
            assert(s@.subrange(lo as int, hi as int).len() == 0);
        }
        String::new()
    } else if is_space_exec(s.get_char(lo)) {
        let r = trim_from(s, lo + 1, hi);
        proof {
            assert(s@.subrange(lo as int, hi as int)[0] == s@[lo as int]);
            assert(s@.subrange(lo as int, hi as int).drop_first() =~= s@.subrange(
                lo + 1 as int,
                hi as int,
            ));
        }
        r
    } else if is_space_exec(s.get_char(hi - 1)) {
        let r = trim_from(s, lo, hi - 1);
        proof {
            let sub = s@.subrange(lo as int, hi as int);
            assert(sub[0] == s@[lo as int]);
            assert(sub.last() == s@[hi - 1]);
            assert(sub.drop_last() =~= s@.subrange(lo as int, hi - 1));
        }
        r
    } else {
        let r = s.substring_char(lo, hi).to_owned();
        proof {
            let sub = s@.subrange(lo as int, hi as int);
            assert(sub[0] == s@[lo as int]);
            assert(sub.last() == s@[hi - 1]);
        }
        r
    }
}

/// A run of `n` copies of one character.
pub fn repeat_char(c: char, n: usize) -> (s: String)
    ensures
        s@.len() == n,
        forall|k: int| 0 <= k < n ==> s@[k] == c,
{
    let mut s = String::new();
    let mut i: usize = 0;
    while i < n
        invariant
            i <= n,
            s@.len() == i,
            forall|k: int| 0 <= k < i ==> s@[k] == c,
        decreases n - i,
    {
        push_char(&mut s, c);
        i = i + 1;
    }
    s
}

/// The parts glued together with the separator between neighbours.
pub open spec fn join_with(parts: Seq<Seq<char>>, sep: Seq<char>) -> Seq<char>
    decreases parts.len(),
{
    if parts.len() == 0 {
        Seq::empty()
    } else if parts.len() == 1 {
        parts[0]
    } else {
        join_with(parts.drop_last(), sep) + sep + parts.last()
    }
}

/// Joins strings with a separator.
pub fn join_strings(parts: &Vec<String>, sep: &str) -> (r: String)
    ensures
        r@ == join_with(parts@.map_values(|p: String| p@), sep@),
{
    let n = parts.len();
    let ghost all = parts@.map_values(|p: String| p@);
    let mut r = String::new();
    let mut i: usize = 0;
    while i < n
        invariant
            i <= n,
            n == parts@.len(),
            all == parts@.map_values(|p: String| p@),
            r@ == join_with(all.take(i as int), sep@),
        decreases n - i,
    {
        if i > 0 {
            r.append(sep);
        }
        r.append(parts[i].as_str());
        proof {
            assert(all.take(i + 1 as int).drop_last() =~= all.take(i as int));
            assert(all.take(i + 1 as int).last() == all[i as int]);
            if i == 0 {
                assert(join_with(all.take(1), sep@) == all[0]);
                assert(r@ == Seq::<char>::empty() + Seq::<char>::empty() + all[0]);
                assert(r@ =~= all[0]);
            }
        }
        i = i + 1;
    }
    proof {
        assert(all.take(n as int) =~= all);
    }
    r
}

/// The digit characters, in order of value.
pub open spec fn digit_char(d: int) -> char {
    seq!['0', '1', '2', '3', '4', '5', '6', '7', '8', '9'][d]
}

/// Decimal rendering of a natural number, most significant digit first.
pub open spec fn dec_str(n: nat) -> Seq<char>
    decreases n,
{
    if n < 10 {
        seq![digit_char(n as int)]
    } else {
        dec_str(n / 10) + seq![digit_char((n % 10) as int)]
    }
}

fn digit_to_char(d: u64) -> (c: char)
    requires
        d < 10,
    ensures
        c == digit_char(d as int),
{
    match d {
        0 => '0',
        1 => '1',
        2 => '2',
        3 => '3',
        4 => '4',
        5 => '5',
        6 => '6',
        7 => '7',
        8 => '8',
        _ => '9',
    }
}

/// Renders a number in decimal.
pub fn u64_to_string(n: u64) -> (s: String)
    ensures
        s@ == dec_str(n as nat),
    decreases n,
{
    if n < 10 {
        let mut s = String::new();
        push_char(&mut s, digit_to_char(n));
        proof {
            assert(s@ =~= dec_str(n as nat));
        }
        s
    } else {
        let mut s = u64_to_string(n / 10);
        push_char(&mut s, digit_to_char(n % 10));
        proof {
            assert(s@ =~= dec_str(n as nat));
        }
        s
    }
}

/// Decimal rendering of a signed number: a leading minus when negative.
pub open spec fn dec_str_i64(n: int) -> Seq<char> {
    if n < 0 {
        seq!['-'] + dec_str((-n) as nat)
    } else {
        dec_str(n as nat)
    }
}

/// Renders a signed number in decimal.
pub fn i64_to_string(n: i64) -> (s: String)
    ensures
        s@ == dec_str_i64(n as int),
{
    if n < 0 {
        let mut s = String::new();
        push_char(&mut s, '-');
        let mag: u64 = if n == i64::MIN {
            9223372036854775808u64
        } else {
            (-n) as u64
        };
        let t = u64_to_string(mag);
        let r = s.concat(t.as_str());
        proof {
            assert(r@ =~= dec_str_i64(n as int));
        }
        r
    } else {
        u64_to_string(n as u64)
    }
}

/// The numeric value of a sequence of digit characters.
pub open spec fn digits_val(s: Seq<char>) -> nat
    decreases s.len(),
{
    if s.len() == 0 {
        0
    } else {
        (digits_val(s.drop_last()) * 10 + (s.last() as int - '0' as int)) as nat
    }
}

/// Every character is a decimal digit.
pub open spec fn all_digits(s: Seq<char>) -> bool {
    forall|k: int| 0 <= k < s.len() ==> '0' <= #[trigger] s[k] && s[k] <= '9'
}

/// Parses an unsigned decimal number; `None` on an empty string, a non-digit,
/// or a value that does not fit in `usize`.
pub fn parse_usize(s: &str) -> (r: Option<usize>)
    ensures
        match r {
            Some(v) => all_digits(s@) && s@.len() > 0 && v as nat == digits_val(s@) && digits_val(
                s@,
            ) <= usize::MAX,
            None => s@.len() == 0 || !all_digits(s@) || digits_val(s@) > usize::MAX,
        },
{
    let n = s.unicode_len();
    if n == 0 {
        return None;
    }
    let mut acc: usize = 0;
    let mut i: usize = 0;
    while i < n
        invariant
            n == s@.len(),
            0 < n,
            i <= n,
            all_digits(s@.take(i as int)),
            acc as nat == digits_val(s@.take(i as int)),
        decreases n - i,
    {
        let c = s.get_char(i);
        if c < '0' || c > '9' {
            proof {
                assert(!('0' <= s@[i as int] && s@[i as int] <= '9'));
            }
            return None;
        }
        let d: usize = ((c as u8) - 48) as usize;
        if acc > (usize::MAX - d) / 10 {
            proof {
                lemma_digits_val_grows(s@, i as int);
            }
            return None;
        }
        acc = acc * 10 + d;
        proof {
            assert(s@.take(i + 1 as int).drop_last() =~= s@.take(i as int));
            assert(s@.take(i + 1 as int).last() == s@[i as int]);
        }
        i = i + 1;
    }
    proof {
        assert(s@.take(n as int) =~= s@);
    }
    Some(acc)
}

/// Once a prefix exceeds the maximum, the full digit string does too.
proof fn lemma_digits_val_grows(s: Seq<char>, i: int)
    requires
        0 <= i < s.len(),
        all_digits(s.take(i)),
        '0' <= s[i] && s[i] <= '9',
        digits_val(s.take(i)) * 10 + (s[i] as nat - '0' as nat) > usize::MAX,
    ensures
        !all_digits(s) || digits_val(s) > usize::MAX,
    decreases s.len() - i,
{
    if !all_digits(s) {
    } else {
        assert(s.take(i + 1).drop_last() =~= s.take(i));
        assert(s.take(i + 1).last() == s[i]);
        assert(digits_val(s.take(i + 1)) > usize::MAX);
        lemma_digits_val_mono(s, i + 1);
    }
}

/// The value of a digit string is at least the value of any prefix.
proof fn lemma_digits_val_mono(s: Seq<char>, i: int)
    requires
        0 <= i <= s.len(),
        all_digits(s),
    ensures
        digits_val(s) >= digits_val(s.take(i)),
    decreases s.len() - i,
{
    if i == s.len() {
        assert(s.take(i) =~= s);
    } else {
        lemma_digits_val_mono(s, i + 1);
        assert(s.take(i + 1).drop_last() =~= s.take(i));
        assert(s.take(i + 1).last() == s[i]);
        assert('0' <= s[i] && s[i] <= '9');
        assert(digits_val(s.take(i + 1)) >= digits_val(s.take(i)));
    }
}

} // verus!
