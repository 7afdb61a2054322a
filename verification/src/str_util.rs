//! Small verified helpers over strings and character classes.

use vstd::prelude::*;
use vstd::string::StrSliceExecFns;

verus! {

/// Whether a character is Unicode whitespace, as `char::is_whitespace`
/// decides it: a function of the scalar value alone.
pub uninterp spec fn is_unicode_ws(c: char) -> bool;

/// Relies on `char::is_whitespace`: the Unicode whitespace property of
/// the character.
#[verifier::external_body]
pub fn unicode_ws(c: char) -> (r: bool)
    ensures
        r == is_unicode_ws(c),
{
    c.is_whitespace()
}

/// Whether a character is a Unicode letter or digit, as
/// `char::is_alphanumeric` decides it: a function of the scalar value
/// alone.
pub uninterp spec fn is_alnum(c: char) -> bool;

/// Relies on `char::is_alphanumeric`: the Unicode alphanumeric property
/// of the character. The pairing heuristics treat such characters as word
/// content that a quote or bracket should not be glued to.
#[verifier::external_body]
pub fn alnum(c: char) -> (r: bool)
    ensures
        r == is_alnum(c),
{
    c.is_alphanumeric()
}

/// Whitespace that can occur inside a line: any whitespace except the
/// line break itself.
pub open spec fn is_line_ws(c: char) -> bool {
    is_unicode_ws(c) && c != '\n'
}

/// Executable form of [`is_line_ws`].
pub fn line_ws(c: char) -> (r: bool)
    ensures
        r == is_line_ws(c),
{
    c != '\n' && unicode_ws(c)
}

/// Length of the longest prefix of `s` made of line whitespace.
pub open spec fn ws_prefix(s: Seq<char>) -> nat
    decreases s.len(),
{
    if s.len() == 0 || !is_line_ws(s[0]) {
        0
    } else {
        1 + ws_prefix(s.skip(1))
    }
}

/// The whitespace prefix is exactly the run of whitespace characters at
/// the front.
pub proof fn lemma_ws_prefix_run(s: Seq<char>, k: int)
    requires
        0 <= k <= s.len(),
        forall|j: int| 0 <= j < k ==> is_line_ws(s[j]),
        k == s.len() || !is_line_ws(s[k]),
    ensures
        ws_prefix(s) == k,
    decreases k,
{
    if k == 0 {
    } else {
        assert(is_line_ws(s[0]));
        lemma_ws_prefix_run(s.skip(1), k - 1);
    }
}

/// Number of leading whitespace characters of `input`, not counting line
/// breaks as whitespace.
pub fn whitespace_at_start(input: &str) -> (n: usize)
    ensures
        n == ws_prefix(input@),
        n <= input@.len(),
{
    let len = input.unicode_len();
    let mut i: usize = 0;
    while i < len
        invariant
            i <= len,
            len == input@.len(),
            forall|j: int| 0 <= j < i ==> is_line_ws(#[trigger] input@[j]),
        decreases len - i,
    {
        let c = input.get_char(i);
        if !line_ws(c) {
            proof {
                lemma_ws_prefix_run(input@, i as int);
            }
            return i;
        }
        i = i + 1;
    }
    proof {
        lemma_ws_prefix_run(input@, len as int);
    }
    len
}

/// Number of leading whitespace characters of line `line` of `source`;
/// zero for a line past the end of the text.
pub fn indent_of_line(source: &str, line: usize) -> (n: usize)
    ensures
        line <= crate::text_model::count_nl(source@) ==> n == ws_prefix(
            source@.skip(crate::text_model::line_start_spec(source@, line)),
        ),
        line > crate::text_model::count_nl(source@) ==> n == 0,
{
    let len = source.unicode_len();
    let mut i: usize = 0;
    let mut cnt: usize = 0;
    while i < len && cnt < line
        invariant
            i <= len,
            len == source@.len(),
            cnt <= line,
            cnt == crate::text_model::count_nl(source@.take(i as int)),
            cnt == line ==> crate::text_model::is_line_start(source@, line as nat, i as int),
        ensures
            i <= len,
            len == source@.len(),
            cnt <= line,
            cnt == crate::text_model::count_nl(source@.take(i as int)),
            cnt == line ==> crate::text_model::is_line_start(source@, line as nat, i as int),
            cnt < line ==> i == len,
        decreases len - i,
    {
        let c = source.get_char(i);
        proof {
            crate::text_model::lemma_count_nl_take_succ(source@, i as int);
        }
        i = i + 1;
        if c == '\n' {
            cnt = cnt + 1;
        }
    }
    proof {
        assert(source@.take(len as int) =~= source@);
    }
    if cnt < line {
        proof {
            crate::text_model::lemma_count_nl_take_monotone(source@, i as int, len as int);
        }
        return 0;
    }
    proof {
        crate::text_model::lemma_count_nl_take_monotone(source@, i as int, len as int);
        crate::text_model::lemma_line_start_unique(
            source@,
            line as nat,
            i as int,
            crate::text_model::line_start_spec(source@, line),
        );
        assert(source@.subrange(i as int, len as int) =~= source@.skip(i as int));
    }
    let rest = source.substring_char(i, len);
    whitespace_at_start(rest)
}

/// Whether two string slices hold the same characters.
pub fn str_eq(a: &str, b: &str) -> (r: bool)
    ensures
        r == (a@ == b@),
{
    let n = a.unicode_len();
    let m = b.unicode_len();
    if n != m {
        return false;
    }
    let mut i: usize = 0;
    while i < n
        invariant
            i <= n,
            n == a@.len(),
            n == b@.len(),
            forall|j: int| 0 <= j < i ==> a@[j] == b@[j],
        decreases n - i,
    {
        if a.get_char(i) != b.get_char(i) {
            return false;
        }
        i = i + 1;
    }
    proof {
        assert(a@ =~= b@);
    }
    true
}

/// `pat` occurs in `s` at offset `i`.
pub open spec fn match_at(s: Seq<char>, pat: Seq<char>, i: int) -> bool {
    0 <= i && i + pat.len() <= s.len() && s.subrange(i, i + pat.len()) == pat
}

/// `pat` occurs somewhere in `s`.
pub open spec fn contains_seq(s: Seq<char>, pat: Seq<char>) -> bool {
    exists|i: int| match_at(s, pat, i)
}

/// Whether `pat` occurs in `s` starting at offset `i`.
fn matches_at(s: &str, slen: usize, pat: &str, plen: usize, i: usize) -> (r: bool)
    requires
        slen == s@.len(),
        plen == pat@.len(),
        i + plen <= slen,
    ensures
        r == match_at(s@, pat@, i as int),
{
    let mut j: usize = 0;
    while j < plen
        invariant
            j <= plen,
            slen == s@.len(),
            plen == pat@.len(),
            i + plen <= slen,
            forall|k: int| 0 <= k < j ==> s@[i + k] == pat@[k],
        decreases plen - j,
    {
        if s.get_char(i + j) != pat.get_char(j) {
            proof {
                assert(s@.subrange(i as int, i + plen) != pat@) by {
                    assert(s@.subrange(i as int, i + plen)[j as int] == s@[i + j]);
                }
            }
            return false;
        }
        j = j + 1;
    }
    proof {
        assert(s@.subrange(i as int, i + plen) =~= pat@);
    }
    true
}

/// Whether `pat` occurs anywhere in `s`.
pub fn str_contains(s: &str, pat: &str) -> (r: bool)
    ensures
        r == contains_seq(s@, pat@),
{
    let slen = s.unicode_len();
    let plen = pat.unicode_len();
    if plen == 0 {
        proof {
            assert(s@.subrange(0, 0) =~= pat@);
            assert(match_at(s@, pat@, 0));
        }
        return true;
    }
    if plen > slen {
        proof {
            assert(forall|i: int| !match_at(s@, pat@, i));
        }
        return false;
    }
    let mut i: usize = 0;
    while i <= slen - plen
        invariant
            0 < plen <= slen,
            i <= slen - plen + 1,
            slen == s@.len(),
            plen == pat@.len(),
            forall|k: int| 0 <= k < i ==> !match_at(s@, pat@, k),
        decreases slen - i,
    {
        if matches_at(s, slen, pat, plen, i) {
            return true;
        }
        i = i + 1;
    }
    proof {
        assert(forall|k: int| #![auto] !match_at(s@, pat@, k)) by {
            assert(forall|k: int| k + pat@.len() > s@.len() ==> !match_at(s@, pat@, k));
        }
    }
    false
}

/// `s` with every occurrence of `pat` replaced by `rep`, scanning left to
/// right past each replacement; an empty pattern replaces nothing.
pub open spec fn replace_spec(s: Seq<char>, pat: Seq<char>, rep: Seq<char>) -> Seq<char>
    decreases s.len(),
    when pat.len() > 0
{
    if s.len() < pat.len() {
        s
    } else if s.subrange(0, pat.len() as int) == pat {
        rep + replace_spec(s.skip(pat.len() as int), pat, rep)
    } else {
        seq![s[0]] + replace_spec(s.skip(1), pat, rep)
    }
}

/// Replaces every occurrence of `pat` in `s` by `rep`. With an empty
/// pattern the text comes back unchanged.
pub fn replace_str(s: &str, pat: &str, rep: &str) -> (r: String)
    ensures
        pat@.len() > 0 ==> r@ == replace_spec(s@, pat@, rep@),
        pat@.len() == 0 ==> r@ == s@,
{
    let slen = s.unicode_len();
    let plen = pat.unicode_len();
    if plen == 0 {
        return String::from_str(s);
    }
    let mut out = String::new();
    let mut i: usize = 0;
    proof {
        assert(s@.skip(0) =~= s@);
    }
    while i < slen
        invariant
            i <= slen,
            slen == s@.len(),
            plen == pat@.len(),
            plen > 0,
            out@ + replace_spec(s@.skip(i as int), pat@, rep@) =~= replace_spec(s@, pat@, rep@),
        decreases slen - i,
    {
        let tail_len = slen - i;
        if plen <= tail_len && matches_at(s, slen, pat, plen, i) {
            out.append(rep);
            proof {
                let t = s@.skip(i as int);
                assert(t.subrange(0, plen as int) =~= s@.subrange(i as int, i + plen));
                assert(t.skip(plen as int) =~= s@.skip(i + plen));
            }
            i = i + plen;
        } else {
            let c = s.get_char(i);
            crate::str_util::string_push(&mut out, c);
            proof {
                let t = s@.skip(i as int);
                assert(t[0] == s@[i as int]);
                assert(t.skip(1) =~= s@.skip(i + 1));
                if t.len() >= plen {
                    assert(t.subrange(0, plen as int) =~= s@.subrange(i as int, i + plen));
                }
                assert(out@ + replace_spec(s@.skip(i + 1), pat@, rep@) =~= replace_spec(
                    s@,
                    pat@,
                    rep@,
                ));
            }
            i = i + 1;
        }
    }
    proof {
        assert(s@.skip(slen as int) =~= Seq::<char>::empty());
        assert(out@ =~= replace_spec(s@, pat@, rep@));
    }
    out
}

/// The pieces of `s` cut at every occurrence of `pat`, the piece built so
/// far carried in `cur`.
pub open spec fn split_acc(s: Seq<char>, pat: Seq<char>, cur: Seq<char>) -> Seq<Seq<char>>
    decreases s.len(),
    when pat.len() > 0
{
    if s.len() < pat.len() {
        seq![cur + s]
    } else if s.subrange(0, pat.len() as int) == pat {
        seq![cur] + split_acc(s.skip(pat.len() as int), pat, Seq::empty())
    } else {
        split_acc(s.skip(1), pat, cur.push(s[0]))
    }
}

/// The pieces of `s` around every occurrence of `pat`.
pub open spec fn split_spec(s: Seq<char>, pat: Seq<char>) -> Seq<Seq<char>> {
    split_acc(s, pat, Seq::empty())
}

/// Splits `s` at every occurrence of `pat`.
pub fn split_str(s: &str, pat: &str) -> (r: Vec<String>)
    requires
        pat@.len() > 0,
    ensures
        r@.len() == split_spec(s@, pat@).len(),
        forall|j: int| 0 <= j < r@.len() ==> #[trigger] r@[j]@ == split_spec(s@, pat@)[j],
{
    let slen = s.unicode_len();
    let plen = pat.unicode_len();
    let mut out: Vec<String> = Vec::new();
    let mut cur = String::new();
    let mut i: usize = 0;
    proof {
        assert(s@.skip(0) =~= s@);
        assert(out@.map_values(|x: String| x@) =~= Seq::<Seq<char>>::empty());
    }
    while i < slen
        invariant
            i <= slen,
            slen == s@.len(),
            plen == pat@.len(),
            plen > 0,
            out@.map_values(|x: String| x@) + split_acc(s@.skip(i as int), pat@, cur@)
                =~= split_spec(s@, pat@),
        decreases slen - i,
    {
        let ghost t = s@.skip(i as int);
        let ghost cur0 = cur@;
        let ghost m0 = out@.map_values(|x: String| x@);
        let tail_len = slen - i;
        if plen <= tail_len && matches_at(s, slen, pat, plen, i) {
            proof {
                assert(t.subrange(0, plen as int) =~= s@.subrange(i as int, i + plen));
                assert(t.skip(plen as int) =~= s@.skip(i + plen));
            }
            out.push(cur);
            cur = String::new();
            i = i + plen;
            proof {
                let m1 = out@.map_values(|x: String| x@);
                assert(m1 =~= m0.push(cur0));
                let rest = split_acc(s@.skip(i as int), pat@, cur@);
                assert(split_acc(t, pat@, cur0) =~= seq![cur0] + rest);
                assert(m1 + rest =~= m0 + (seq![cur0] + rest));
            }
        } else {
            let c = s.get_char(i);
            crate::str_util::string_push(&mut cur, c);
            i = i + 1;
            proof {
                assert(t[0] == s@[i - 1]);
                assert(t.skip(1) =~= s@.skip(i as int));
                if t.len() >= plen {
                    assert(t.subrange(0, plen as int) =~= s@.subrange(i - 1, i - 1 + plen));
                    assert(split_acc(t, pat@, cur0) == split_acc(t.skip(1), pat@, cur0.push(t[0])));
                } else {
                    // still inside the final piece
                    assert(cur0.push(t[0]) + t.skip(1) =~= cur0 + t);
                    assert(split_acc(t, pat@, cur0) =~= seq![cur0 + t]);
                    assert(split_acc(t.skip(1), pat@, cur0.push(t[0])) =~= seq![
                        cur0.push(t[0]) + t.skip(1),
                    ]);
                }
                assert(cur@ =~= cur0.push(t[0]));
                assert(out@.map_values(|x: String| x@) =~= m0);
                assert(split_acc(s@.skip(i as int), pat@, cur@) == split_acc(
                    t.skip(1),
                    pat@,
                    cur0.push(t[0]),
                ));
            }
        }
    }
    let ghost m0 = out@.map_values(|x: String| x@);
    let ghost cur0 = cur@;
    proof {
        let t = s@.skip(slen as int);
        assert(t =~= Seq::<char>::empty());
        assert(split_acc(t, pat@, cur0) =~= seq![cur0 + t]);
        assert(cur0 + t =~= cur0);
    }
    out.push(cur);
    proof {
        let m1 = out@.map_values(|x: String| x@);
        assert(m1 =~= m0.push(cur0));
        assert(m1 =~= split_spec(s@, pat@));
        assert forall|j: int| 0 <= j < out@.len() implies out@[j]@ == split_spec(s@, pat@)[j] by {
            assert(m1[j] == out@[j]@);
        }
    }
    out
}

/// Whitespace for trimming: any Unicode whitespace, line breaks
/// included.
pub open spec fn is_ws_any(c: char) -> bool {
    is_unicode_ws(c) || c == '\n'
}

/// The number of leading characters of `s` that are whitespace.
pub open spec fn ws_any_prefix(s: Seq<char>) -> nat
    decreases s.len(),
{
    if s.len() == 0 || !is_ws_any(s[0]) {
        0
    } else {
        1 + ws_any_prefix(s.skip(1))
    }
}

/// The number of trailing characters of `s` that are whitespace.
pub open spec fn ws_any_suffix(s: Seq<char>) -> nat
    decreases s.len(),
{
    if s.len() == 0 || !is_ws_any(s.last()) {
        0
    } else {
        1 + ws_any_suffix(s.drop_last())
    }
}

/// `s` with leading and trailing whitespace removed.
pub open spec fn trim_spec(s: Seq<char>) -> Seq<char> {
    let core = s.skip(ws_any_prefix(s) as int);
    core.take(core.len() - ws_any_suffix(core))
}

proof fn lemma_ws_any_prefix_run(s: Seq<char>, k: int)
    requires
        0 <= k <= s.len(),
        forall|j: int| 0 <= j < k ==> is_ws_any(s[j]),
        k == s.len() || !is_ws_any(s[k]),
    ensures
        ws_any_prefix(s) == k,
    decreases k,
{
    if k > 0 {
        lemma_ws_any_prefix_run(s.skip(1), k - 1);
    }
}

proof fn lemma_ws_any_suffix_run(s: Seq<char>, k: int)
    requires
        0 <= k <= s.len(),
        forall|j: int| s.len() - k <= j < s.len() ==> is_ws_any(s[j]),
        k == s.len() || !is_ws_any(s[s.len() - k - 1]),
    ensures
        ws_any_suffix(s) == k,
    decreases k,
{
    if k > 0 {
        assert(forall|j: int|
            s.drop_last().len() - (k - 1) <= j < s.drop_last().len() ==> is_ws_any(
                s.drop_last()[j],
            ));
        lemma_ws_any_suffix_run(s.drop_last(), k - 1);
    }
}

/// Executable form of [`is_ws_any`].
fn ws_any(c: char) -> (r: bool)
    ensures
        r == is_ws_any(c),
{
    c == '\n' || unicode_ws(c)
}

/// Removes leading and trailing whitespace.
pub fn trim_str(s: &str) -> (r: String)
    ensures
        r@ == trim_spec(s@),
{
    let n = s.unicode_len();
    let mut a: usize = 0;
    while a < n
        invariant
            a <= n,
            n == s@.len(),
            forall|j: int| 0 <= j < a ==> is_ws_any(#[trigger] s@[j]),
        ensures
            a <= n,
            forall|j: int| 0 <= j < a ==> is_ws_any(#[trigger] s@[j]),
            a == n || !is_ws_any(s@[a as int]),
        decreases n - a,
    {
        if !ws_any(s.get_char(a)) {
            break;
        }
        a = a + 1;
    }
    let mut b = n;
    while b > a
        invariant
            a <= b <= n,
            n == s@.len(),
            a == n || !is_ws_any(s@[a as int]),
            forall|j: int| b <= j < n ==> is_ws_any(#[trigger] s@[j]),
        ensures
            a <= b <= n,
            forall|j: int| b <= j < n ==> is_ws_any(#[trigger] s@[j]),
            b == a || !is_ws_any(s@[b - 1]),
        decreases b,
    {
        if !ws_any(s.get_char(b - 1)) {
            break;
        }
        b = b - 1;
    }
    proof {
        let core = s@.skip(ws_any_prefix(s@) as int);
        if a == n {
            lemma_ws_any_prefix_run(s@, a as int);
            assert(b == a);
            assert(core =~= Seq::<char>::empty());
            assert(trim_spec(s@) =~= s@.subrange(a as int, b as int));
        } else {
            lemma_ws_any_prefix_run(s@, a as int);
            assert(core =~= s@.skip(a as int));
            assert(b > a);
            assert(!is_ws_any(core[core.len() - (n - b) - 1])) by {
                assert(core[b - a - 1] == s@[b - 1]);
            }
            assert(forall|j: int|
                core.len() - (n - b) <= j < core.len() ==> is_ws_any(#[trigger] core[j])) by {
                assert(forall|j: int|
                    core.len() - (n - b) <= j < core.len() ==> core[j] == s@[j + a]);
            }
            lemma_ws_any_suffix_run(core, n - b);
            assert(trim_spec(s@) =~= s@.subrange(a as int, b as int));
        }
    }
    let r = s.substring_char(a, b);
    String::from_str(r)
}

/// Relies on `String::push`: appends one character.
#[verifier::external_body]
pub fn string_push(s: &mut String, c: char)
    ensures
        final(s)@ == old(s)@.push(c),
{
    s.push(c)
}

/// The sequence of `n` spaces.
pub open spec fn spaces(n: nat) -> Seq<char>
    decreases n,
{
    if n == 0 {
        Seq::empty()
    } else {
        spaces((n - 1) as nat).push(' ')
    }
}

/// Builds a string of `n` spaces.
pub fn make_spaces(n: usize) -> (s: String)
    ensures
        s@ == spaces(n as nat),
        s@.len() == n,
{
    let mut s = String::new();
    let mut i: usize = 0;
    proof {
        lemma_spaces_len(n as nat);
    }
    while i < n
        invariant
            i <= n,
            s@ == spaces(i as nat),
            s@.len() == i,
        decreases n - i,
    {
        s.append(" ");
        proof {
            reveal_strlit(" ");
            assert(s@ =~= spaces((i + 1) as nat)) by {
                lemma_spaces_len((i + 1) as nat);
            }
        }
        i = i + 1;
    }
    s
}

/// Every character of [`spaces`] is a space, and its length is `n`.
pub proof fn lemma_spaces_len(n: nat)
    ensures
        spaces(n).len() == n,
        forall|j: int| 0 <= j < n ==> spaces(n)[j] == ' ',
    decreases n,
{
    if n > 0 {
        lemma_spaces_len((n - 1) as nat);
    }
}

} // verus!
