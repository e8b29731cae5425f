use vstd::prelude::*;

verus! {

/// The White_Space property of the Unicode Character Database (PropList.txt),
/// which is what `char::is_whitespace` tests.
pub open spec fn is_white_space(c: char) -> bool {
    ||| ('\u{9}' <= c && c <= '\u{d}')
    ||| c == ' '
    ||| c == '\u{85}'
    ||| c == '\u{a0}'
    ||| c == '\u{1680}'
    ||| ('\u{2000}' <= c && c <= '\u{200a}')
    ||| c == '\u{2028}'
    ||| c == '\u{2029}'
    ||| c == '\u{202f}'
    ||| c == '\u{205f}'
    ||| c == '\u{3000}'
}

/// Whether `c` is a Unicode white-space character.
pub fn is_whitespace(c: char) -> (r: bool)
    ensures
        r == is_white_space(c),
{
    ('\u{9}' <= c && c <= '\u{d}') || c == ' ' || c == '\u{85}' || c == '\u{a0}' || c
        == '\u{1680}' || ('\u{2000}' <= c && c <= '\u{200a}') || c == '\u{2028}' || c
        == '\u{2029}' || c == '\u{202f}' || c == '\u{205f}' || c == '\u{3000}'
}

/// `s` with leading white space removed.
pub open spec fn trim_start_spec(s: Seq<char>) -> Seq<char>
    decreases s.len(),
{
    if s.len() > 0 && is_white_space(s[0]) {
        trim_start_spec(s.drop_first())
    } else {
        s
    }
}

/// `s` with trailing white space removed.
pub open spec fn trim_end_spec(s: Seq<char>) -> Seq<char>
    decreases s.len(),
{
    if s.len() > 0 && is_white_space(s.last()) {
        trim_end_spec(s.drop_last())
    } else {
        s
    }
}

/// `s` with leading and trailing white space removed, as `str::trim` does.
pub open spec fn trim_spec(s: Seq<char>) -> Seq<char> {
    trim_end_spec(trim_start_spec(s))
}

proof fn lemma_trim_start_skip(s: Seq<char>, i: int)
    requires
        0 <= i <= s.len(),
        forall|j: int| 0 <= j < i ==> is_white_space(#[trigger] s[j]),
    ensures
        trim_start_spec(s) == trim_start_spec(s.skip(i)),
    decreases i,
{
    if i > 0 {
        assert(s.skip(1) == s.drop_first());
        lemma_trim_start_skip(s.drop_first(), i - 1);
        assert(s.drop_first().skip(i - 1) == s.skip(i));
    } else {
        assert(s.skip(0) == s);
    }
}

proof fn lemma_trim_end_take(s: Seq<char>, k: int)
    requires
        0 <= k <= s.len(),
        forall|j: int| k <= j < s.len() ==> is_white_space(#[trigger] s[j]),
    ensures
        trim_end_spec(s) == trim_end_spec(s.take(k)),
    decreases s.len() - k,
{
    if k < s.len() {
        assert(s.take(s.len() - 1) == s.drop_last());
        lemma_trim_end_take(s.drop_last(), k);
        assert(s.drop_last().take(k) == s.take(k));
    } else {
        assert(s.take(k) == s);
    }
}

/// Trimmed text that is not empty ends with a character that is not white space.
pub proof fn lemma_trim_ends_in_text(s: Seq<char>)
    ensures
        trim_spec(s).len() > 0 ==> !is_white_space(trim_spec(s).last()),
{
    lemma_trim_end_last(trim_start_spec(s));
}

proof fn lemma_trim_end_last(s: Seq<char>)
    ensures
        trim_end_spec(s).len() > 0 ==> !is_white_space(trim_end_spec(s).last()),
    decreases s.len(),
{
    if s.len() > 0 && is_white_space(s.last()) {
        lemma_trim_end_last(s.drop_last());
    }
}

proof fn lemma_trim_start_keeps_last(s: Seq<char>)
    requires
        s.len() > 0,
        !is_white_space(s.last()),
    ensures
        trim_start_spec(s).len() > 0,
        trim_start_spec(s).last() == s.last(),
    decreases s.len(),
{
    if is_white_space(s[0]) {
        assert(s.len() > 1);
        assert(s.drop_first().last() == s.last());
        lemma_trim_start_keeps_last(s.drop_first());
    }
}

/// Text that ends with a character that is not white space keeps some text
/// when trimmed.
pub proof fn lemma_trim_keeps_text(s: Seq<char>)
    requires
        s.len() > 0,
        !is_white_space(s.last()),
    ensures
        trim_spec(s).len() > 0,
{
    lemma_trim_start_keeps_last(s);
}

/// `str::trim`: the slice of `s` without leading and trailing white space.
pub fn trim(s: &str) -> (r: &str)
    ensures
        r@ == trim_spec(s@),
{
    let n = s.unicode_len();
    let mut i: usize = 0;
    while i < n && is_whitespace(s.get_char(i))
        invariant
            n == s@.len(),
            i <= n,
            forall|j: int| 0 <= j < i ==> is_white_space(#[trigger] s@[j]),
        decreases n - i,
    {
        i = i + 1;
    }
    let mut k: usize = n;
    while k > i && is_whitespace(s.get_char(k - 1))
        invariant
            n == s@.len(),
            i <= k <= n,
            forall|j: int| k <= j < n ==> is_white_space(#[trigger] s@[j]),
        decreases k,
    {
        k = k - 1;
    }
    proof {
        lemma_trim_start_skip(s@, i as int);
        let t = s@.skip(i as int);
        if i < n {
            assert(!is_white_space(t[0]));
        }
        assert(trim_start_spec(t) == t);
        assert forall|j: int| k - i <= j < t.len() implies is_white_space(#[trigger] t[j]) by {
            assert(t[j] == s@[j + i]);
        }
        lemma_trim_end_take(t, k - i);
        let u = t.take(k - i);
        assert(u == s@.subrange(i as int, k as int));
        if k > i {
            assert(u.last() == s@[k - 1]);
        }
        assert(trim_end_spec(u) == u);
    }
    s.substring_char(i, k)
}


/// `parts` joined with `sep` between neighbours, as `[String]::join` does.
pub open spec fn join_spec(parts: Seq<Seq<char>>, sep: Seq<char>) -> Seq<char>
    decreases parts.len(),
{
    if parts.len() == 0 {
        Seq::empty()
    } else if parts.len() == 1 {
        parts[0]
    } else {
        join_spec(parts.drop_last(), sep) + sep + parts.last()
    }
}

/// The parts joined with `sep` between neighbours.
pub fn join(parts: &Vec<String>, sep: &str) -> (r: String)
    ensures
        r@ == join_spec(parts.deep_view(), sep@),
{
    let mut res = String::new();
    let n = parts.len();
    let ghost v = parts.deep_view();
    let mut i: usize = 0;
    while i < n
        invariant
            n == parts@.len(),
            v == parts.deep_view(),
            i <= n,
            res@ == join_spec(v.take(i as int), sep@),
        decreases n - i,
    {
        assert(v.take(i + 1).drop_last() == v.take(i as int));
        assert(v.take(i + 1).last() == parts@[i as int]@);
        if i > 0 {
            res.append(sep);
        }
        res.append(parts[i].as_str());
        i = i + 1;
    }
    assert(v.take(n as int) == v);
    res
}

/// `a` followed by `b`.
pub fn concat(a: &str, b: &str) -> (r: String)
    ensures
        r@ == a@ + b@,
{
    let mut res = String::from_str(a);
    res.append(b);
    res
}

/// Whether `s` begins with `p`.
pub open spec fn starts_with_spec(s: Seq<char>, p: Seq<char>) -> bool {
    p.len() <= s.len() && s.take(p.len() as int) == p
}

/// Whether `s` ends with `p`.
pub open spec fn ends_with_spec(s: Seq<char>, p: Seq<char>) -> bool {
    p.len() <= s.len() && s.skip(s.len() - p.len()) == p
}

/// Whether `p` occurs in `s` at character position `i`.
fn matches_at(s: &str, n: usize, i: usize, p: &str, m: usize) -> (r: bool)
    requires
        n == s@.len(),
        m == p@.len(),
        i <= n,
    ensures
        r == starts_with_spec(s@.skip(i as int), p@),
{
    if m > n - i {
        return false;
    }
    let mut j: usize = 0;
    while j < m
        invariant
            n == s@.len(),
            m == p@.len(),
            i + m <= n,
            j <= m,
            forall|k: int| 0 <= k < j ==> s@[i + k] == p@[k],
        decreases m - j,
    {
        if s.get_char(i + j) != p.get_char(j) {
            assert(s@.skip(i as int).take(m as int)[j as int] != p@[j as int]);
            return false;
        }
        j = j + 1;
    }
    assert(s@.skip(i as int).take(m as int) =~= p@);
    true
}

/// `str::starts_with` with a string pattern.
pub fn starts_with(s: &str, p: &str) -> (r: bool)
    ensures
        r == starts_with_spec(s@, p@),
{
    assert(s@.skip(0) == s@);
    matches_at(s, s.unicode_len(), 0, p, p.unicode_len())
}

/// `str::ends_with` with a string pattern.
pub fn ends_with(s: &str, p: &str) -> (r: bool)
    ensures
        r == ends_with_spec(s@, p@),
{
    let n = s.unicode_len();
    let m = p.unicode_len();
    if m > n {
        return false;
    }
    let r = matches_at(s, n, n - m, p, m);
    assert(s@.skip(n - m).take(m as int) =~= s@.skip(n - m));
    r
}

/// `s` with every non-overlapping occurrence of `pat`, taken from the left,
/// replaced by `rep`, as `str::replace` does.
pub open spec fn replace_spec(s: Seq<char>, pat: Seq<char>, rep: Seq<char>) -> Seq<char>
    recommends
        pat.len() > 0,
    decreases s.len(),
{
    if s.len() == 0 || pat.len() == 0 {
        s
    } else if starts_with_spec(s, pat) {
        rep + replace_spec(s.skip(pat.len() as int), pat, rep)
    } else {
        seq![s[0]] + replace_spec(s.drop_first(), pat, rep)
    }
}

/// `str::replace` with a non-empty string pattern.
pub fn replace(s: &str, pat: &str, rep: &str) -> (r: String)
    requires
        pat@.len() > 0,
    ensures
        r@ == replace_spec(s@, pat@, rep@),
{
    let n = s.unicode_len();
    let m = pat.unicode_len();
    let mut res = String::new();
    let mut i: usize = 0;
    assert(s@.skip(0) == s@);
    while i < n
        invariant
            n == s@.len(),
            m == pat@.len(),
            m > 0,
            i <= n,
            res@ + replace_spec(s@.skip(i as int), pat@, rep@) == replace_spec(s@, pat@, rep@),
        decreases n - i,
    {
        let ghost t = s@.skip(i as int);
        if matches_at(s, n, i, pat, m) {
            let ghost before = res@;
            res.append(rep);
            assert(t.skip(m as int) == s@.skip(i + m));
            assert(replace_spec(t, pat@, rep@) == rep@ + replace_spec(t.skip(m as int), pat@, rep@));
            assert(before + (rep@ + replace_spec(s@.skip(i + m), pat@, rep@)) =~= res@
                + replace_spec(s@.skip(i + m), pat@, rep@));
            i = i + m;
        } else {
            let ghost before = res@;
            res.append(s.substring_char(i, i + 1));
            assert(t.drop_first() == s@.skip(i + 1));
            assert(replace_spec(t, pat@, rep@) == seq![t[0]] + replace_spec(t.drop_first(), pat@, rep@));
            assert(res@ =~= before + seq![t[0]]);
            assert(before + (seq![t[0]] + replace_spec(s@.skip(i + 1), pat@, rep@)) =~= res@
                + replace_spec(s@.skip(i + 1), pat@, rep@));
            i = i + 1;
        }
    }
    assert(s@.skip(n as int) =~= Seq::<char>::empty());
    assert(res@ + Seq::<char>::empty() =~= res@);
    res
}


/// `s` with every trailing occurrence of `p` removed, as `str::trim_end_matches` does.
pub open spec fn trim_end_matches_spec(s: Seq<char>, p: Seq<char>) -> Seq<char>
    decreases s.len(),
{
    if p.len() > 0 && ends_with_spec(s, p) {
        trim_end_matches_spec(s.take(s.len() - p.len()), p)
    } else {
        s
    }
}

/// `str::trim_end_matches` with a string pattern.
pub fn trim_end_matches<'a>(s: &'a str, p: &str) -> (r: &'a str)
    ensures
        r@ == trim_end_matches_spec(s@, p@),
{
    let n = s.unicode_len();
    let m = p.unicode_len();
    if m == 0 {
        return s;
    }
    let mut k: usize = n;
    assert(s@.take(n as int) == s@);
    while m <= k && matches_at(s, n, k - m, p, m)
        invariant
            n == s@.len(),
            m == p@.len(),
            m > 0,
            k <= n,
            trim_end_matches_spec(s@.take(k as int), p@) == trim_end_matches_spec(s@, p@),
        decreases k,
    {
        proof {
            let t = s@.take(k as int);
            assert(t.skip(k - m) == s@.skip(k - m).take(m as int));
            assert(t.take(k - m) == s@.take(k - m));
        }
        k = k - m;
    }
    proof {
        let t = s@.take(k as int);
        if m <= k {
            assert(t.skip(k - m) == s@.skip(k - m).take(m as int));
        }
        assert(s@.take(n as int) == s@);
    }
    s.substring_char(0, k)
}

/// `str::strip_prefix` with a string pattern.
pub fn strip_prefix<'a>(s: &'a str, p: &str) -> (r: Option<&'a str>)
    ensures
        r matches Some(t) <==> starts_with_spec(s@, p@),
        r matches Some(t) ==> t@ == s@.skip(p@.len() as int),
{
    if starts_with(s, p) {
        let n = s.unicode_len();
        let m = p.unicode_len();
        Some(s.substring_char(m, n))
    } else {
        None
    }
}

/// `s` cut at every occurrence of `c`, as `str::split` with a character does:
/// there is always at least one piece, and `k` occurrences give `k + 1` pieces.
pub open spec fn split_spec(s: Seq<char>, c: char) -> Seq<Seq<char>>
    decreases s.len(),
{
    if s.len() == 0 {
        seq![Seq::empty()]
    } else {
        let init = split_spec(s.drop_last(), c);
        if s.last() == c {
            init.push(Seq::empty())
        } else {
            init.update(init.len() - 1, init.last().push(s.last()))
        }
    }
}

proof fn lemma_split_len(s: Seq<char>, c: char)
    ensures
        split_spec(s, c).len() >= 1,
    decreases s.len(),
{
    if s.len() > 0 {
        lemma_split_len(s.drop_last(), c);
    }
}

/// `str::split` with a character pattern, each piece as its own string.
pub fn split_char(s: &str, c: char) -> (r: Vec<String>)
    ensures
        r.deep_view() == split_spec(s@, c),
{
    let n = s.unicode_len();
    let mut res: Vec<String> = Vec::new();
    let mut start: usize = 0;
    let mut i: usize = 0;
    assert(s@.take(0) =~= Seq::<char>::empty());
    assert(res.deep_view().push(s@.subrange(0, 0)) =~= seq![Seq::<char>::empty()]);
    while i < n
        invariant
            n == s@.len(),
            start <= i <= n,
            res.deep_view().push(s@.subrange(start as int, i as int)) == split_spec(s@.take(i as int), c),
        decreases n - i,
    {
        proof {
            assert(s@.take(i + 1).drop_last() == s@.take(i as int));
            assert(s@.take(i + 1).last() == s@[i as int]);
            lemma_split_len(s@.take(i as int), c);
        }
        let ghost before = res.deep_view();
        let ghost prev = split_spec(s@.take(i as int), c);
        if s.get_char(i) == c {
            assert(split_spec(s@.take(i + 1), c) == prev.push(Seq::empty()));
            let piece = String::from_str(s.substring_char(start, i));
            res.push(piece);
            assert(res.deep_view() =~= before.push(s@.subrange(start as int, i as int)));
            assert(s@.subrange((i + 1) as int, (i + 1) as int) =~= Seq::<char>::empty());
            assert(res.deep_view().push(s@.subrange((i + 1) as int, (i + 1) as int)) =~= split_spec(
                s@.take(i + 1),
                c,
            ));
            start = i + 1;
        } else {
            assert(split_spec(s@.take(i + 1), c) == prev.update(prev.len() - 1, prev.last().push(s@[i as int])));
            assert(s@.subrange(start as int, i as int).push(s@[i as int]) =~= s@.subrange(start as int, i + 1));
            assert(before.push(s@.subrange(start as int, i + 1)) =~= split_spec(s@.take(i + 1), c));
        }
        i = i + 1;
    }
    let piece = String::from_str(s.substring_char(start, n));
    let ghost before = res.deep_view();
    res.push(piece);
    assert(res.deep_view() =~= before.push(s@.subrange(start as int, n as int)));
    assert(s@.take(n as int) == s@);
    res
}

/// `parts` with every repeated value after its first occurrence left out.
pub open spec fn dedup_spec(parts: Seq<Seq<char>>) -> Seq<Seq<char>>
    decreases parts.len(),
{
    if parts.len() == 0 {
        Seq::empty()
    } else {
        let init = dedup_spec(parts.drop_last());
        if init.contains(parts.last()) {
            init
        } else {
            init.push(parts.last())
        }
    }
}

/// Whether some string in `v` equals `s`.
pub fn contains_string(v: &Vec<String>, s: &String) -> (r: bool)
    ensures
        r == v.deep_view().contains(s@),
{
    let n = v.len();
    let mut i: usize = 0;
    while i < n
        invariant
            n == v@.len(),
            i <= n,
            forall|j: int| 0 <= j < i ==> v.deep_view()[j] != s@,
        decreases n - i,
    {
        if v[i] == *s {
            assert(v.deep_view()[i as int] == s@);
            return true;
        }
        i = i + 1;
    }
    false
}

/// The strings of `parts` without repetitions, in order of first occurrence.
pub fn dedup(parts: Vec<String>) -> (r: Vec<String>)
    ensures
        r.deep_view() == dedup_spec(parts.deep_view()),
{
    let n = parts.len();
    let ghost v = parts.deep_view();
    let mut res: Vec<String> = Vec::new();
    let mut i: usize = 0;
    while i < n
        invariant
            n == parts@.len(),
            v == parts.deep_view(),
            i <= n,
            res.deep_view() == dedup_spec(v.take(i as int)),
        decreases n - i,
    {
        assert(v.take(i + 1).drop_last() == v.take(i as int));
        assert(v.take(i + 1).last() == parts@[i as int]@);
        let item = parts[i].clone();
        if !contains_string(&res, &item) {
            let ghost before = res.deep_view();
            res.push(item);
            assert(res.deep_view() =~= before.push(v[i as int]));
        }
        i = i + 1;
    }
    assert(v.take(n as int) == v);
    res
}

/// What `str::to_lowercase` returns for a string whose characters are `s`.
pub uninterp spec fn lowercase(s: Seq<char>) -> Seq<char>;

/// Calls `str::to_lowercase`, the Unicode lower-case mapping of each character
/// of `s`; its result is claimed to be `lowercase` of the characters of `s`.
#[verifier::external_body]
pub(crate) fn to_lowercase(s: &str) -> (r: String)
    ensures
        r@ == lowercase(s@),
{
    s.to_lowercase()
}

/// The ASCII lower-case letter of `c` if it is an ASCII upper-case letter, else `c`.
pub open spec fn ascii_lower(c: char) -> char {
    if 'A' <= c && c <= 'Z' {
        ((c as u32) + 32) as char
    } else {
        c
    }
}

/// `s` with its ASCII upper-case letters made lower-case, as `str::to_ascii_lowercase` does.
pub open spec fn ascii_lowercase_spec(s: Seq<char>) -> Seq<char> {
    s.map_values(|c: char| ascii_lower(c))
}

/// Whether `a` and `b` are equal up to ASCII case, as `str::eq_ignore_ascii_case` tests.
pub open spec fn eq_ignore_ascii_case_spec(a: Seq<char>, b: Seq<char>) -> bool {
    ascii_lowercase_spec(a) == ascii_lowercase_spec(b)
}

fn char_ascii_lower(c: char) -> (r: char)
    ensures
        r == ascii_lower(c),
{
    if 'A' <= c && c <= 'Z' {
        let b: u8 = (c as u8) + 32;
        b as char
    } else {
        c
    }
}

/// `str::eq_ignore_ascii_case`.
pub fn eq_ignore_ascii_case(a: &str, b: &str) -> (r: bool)
    ensures
        r == eq_ignore_ascii_case_spec(a@, b@),
{
    let n = a.unicode_len();
    let m = b.unicode_len();
    if n != m {
        assert(ascii_lowercase_spec(a@).len() != ascii_lowercase_spec(b@).len());
        return false;
    }
    let mut i: usize = 0;
    while i < n
        invariant
            n == a@.len(),
            n == b@.len(),
            i <= n,
            forall|j: int| 0 <= j < i ==> ascii_lower(a@[j]) == ascii_lower(b@[j]),
        decreases n - i,
    {
        if char_ascii_lower(a.get_char(i)) != char_ascii_lower(b.get_char(i)) {
            assert(ascii_lowercase_spec(a@)[i as int] != ascii_lowercase_spec(b@)[i as int]);
            return false;
        }
        i = i + 1;
    }
    assert(ascii_lowercase_spec(a@) =~= ascii_lowercase_spec(b@));
    true
}

/// `str::to_ascii_lowercase`.
pub fn to_ascii_lowercase(s: &str) -> (r: String)
    ensures
        r@ == ascii_lowercase_spec(s@),
{
    let n = s.unicode_len();
    let mut res = String::new();
    let mut i: usize = 0;
    while i < n
        invariant
            n == s@.len(),
            i <= n,
            res@ == ascii_lowercase_spec(s@.take(i as int)),
        decreases n - i,
    {
        let c = char_ascii_lower(s.get_char(i));
        let ghost before = res@;
        if c == s.get_char(i) {
            res.append(s.substring_char(i, i + 1));
        } else {
            push_char(&mut res, c);
        }
        assert(res@ =~= ascii_lowercase_spec(s@.take(i + 1)));
        i = i + 1;
    }
    assert(s@.take(n as int) == s@);
    res
}

/// Calls `String::push`, which appends one character.
#[verifier::external_body]
pub(crate) fn push_char(s: &mut String, c: char)
    ensures
        final(s)@ == old(s)@.push(c),
{
    s.push(c);
}

/// Whether `s` holds nothing but white space, that is, whether `str::trim` leaves it empty.
pub fn is_blank(s: &str) -> (r: bool)
    ensures
        r == (trim_spec(s@).len() == 0),
{
    trim(s).unicode_len() == 0
}

/// `s` when it is non-empty, else nothing.
pub open spec fn non_empty_spec(s: Seq<char>) -> Option<Seq<char>> {
    if s.len() > 0 {
        Some(s)
    } else {
        None
    }
}


/// Replacing a pattern never brings in a character that neither the text nor
/// the replacement holds.
pub proof fn lemma_replace_keeps_absent(s: Seq<char>, pat: Seq<char>, rep: Seq<char>, c: char)
    requires
        !s.contains(c),
        !rep.contains(c),
    ensures
        !replace_spec(s, pat, rep).contains(c),
    decreases s.len(),
{
    if s.len() == 0 || pat.len() == 0 {
    } else if starts_with_spec(s, pat) {
        let rest = s.skip(pat.len() as int);
        assert(!rest.contains(c)) by {
            if rest.contains(c) {
                let k = choose|k: int| 0 <= k < rest.len() && rest[k] == c;
                assert(s[k + pat.len()] == c);
            }
        }
        lemma_replace_keeps_absent(rest, pat, rep, c);
        let r = replace_spec(rest, pat, rep);
        assert(!(rep + r).contains(c)) by {
            if (rep + r).contains(c) {
                let k = choose|k: int| 0 <= k < (rep + r).len() && (rep + r)[k] == c;
                if k < rep.len() {
                    assert(rep[k] == c);
                } else {
                    assert(r[k - rep.len()] == c);
                }
            }
        }
    } else {
        let rest = s.drop_first();
        assert(!rest.contains(c)) by {
            if rest.contains(c) {
                let k = choose|k: int| 0 <= k < rest.len() && rest[k] == c;
                assert(s[k + 1] == c);
            }
        }
        lemma_replace_keeps_absent(rest, pat, rep, c);
        let r = replace_spec(rest, pat, rep);
        assert(s[0] != c);
        assert(!(seq![s[0]] + r).contains(c)) by {
            if (seq![s[0]] + r).contains(c) {
                let k = choose|k: int| 0 <= k < (seq![s[0]] + r).len() && (seq![s[0]] + r)[k] == c;
                if k > 0 {
                    assert(r[k - 1] == c);
                }
            }
        }
    }
}

/// Replacing a one-character pattern by a text without that character leaves
/// none of it.
pub proof fn lemma_replace_removes(s: Seq<char>, c: char, rep: Seq<char>)
    requires
        !rep.contains(c),
    ensures
        !replace_spec(s, seq![c], rep).contains(c),
    decreases s.len(),
{
    if s.len() == 0 {
    } else if starts_with_spec(s, seq![c]) {
        let rest = s.skip(1);
        lemma_replace_removes(rest, c, rep);
        let r = replace_spec(rest, seq![c], rep);
        assert(!(rep + r).contains(c)) by {
            if (rep + r).contains(c) {
                let k = choose|k: int| 0 <= k < (rep + r).len() && (rep + r)[k] == c;
                if k < rep.len() {
                    assert(rep[k] == c);
                } else {
                    assert(r[k - rep.len()] == c);
                }
            }
        }
    } else {
        let rest = s.drop_first();
        lemma_replace_removes(rest, c, rep);
        let r = replace_spec(rest, seq![c], rep);
        assert(s[0] != c) by {
            if s[0] == c {
                assert(s.take(1) =~= seq![c]);
            }
        }
        assert(!(seq![s[0]] + r).contains(c)) by {
            if (seq![s[0]] + r).contains(c) {
                let k = choose|k: int| 0 <= k < (seq![s[0]] + r).len() && (seq![s[0]] + r)[k] == c;
                if k > 0 {
                    assert(r[k - 1] == c);
                }
            }
        }
    }
}

/// Cutting at `c` a text without `c` gives the text as its only piece.
pub proof fn lemma_split_absent(s: Seq<char>, c: char)
    requires
        !s.contains(c),
    ensures
        split_spec(s, c) == seq![s],
    decreases s.len(),
{
    if s.len() > 0 {
        assert(!s.drop_last().contains(c)) by {
            if s.drop_last().contains(c) {
                let k = choose|k: int| 0 <= k < s.drop_last().len() && s.drop_last()[k] == c;
                assert(s[k] == c);
            }
        }
        lemma_split_absent(s.drop_last(), c);
        assert(s.last() != c) by {
            assert(s[s.len() - 1] == s.last());
        }
        let init = split_spec(s.drop_last(), c);
        assert(init == seq![s.drop_last()]);
        assert(init.len() - 1 == 0);
        assert(init.last() == s.drop_last());
        assert(split_spec(s, c) == init.update(0, s.drop_last().push(s.last())));
        assert(s.drop_last().push(s.last()) =~= s);
        assert(init.update(0, s) =~= seq![s]);
    } else {
        assert(s =~= Seq::<char>::empty());
    }
}

/// Cutting `a`, `c`, `b` at `c`, where `b` holds no `c`, gives the pieces of
/// `a` followed by `b`.
pub proof fn lemma_split_append(a: Seq<char>, b: Seq<char>, c: char)
    requires
        !b.contains(c),
    ensures
        split_spec(a + seq![c] + b, c) == split_spec(a, c).push(b),
    decreases b.len(),
{
    if b.len() == 0 {
        assert(a + seq![c] + b =~= a.push(c));
        assert((a + seq![c] + b).drop_last() =~= a);
        assert(b =~= Seq::<char>::empty());
    } else {
        let b0 = b.drop_last();
        assert(!b0.contains(c)) by {
            if b0.contains(c) {
                let k = choose|k: int| 0 <= k < b0.len() && b0[k] == c;
                assert(b[k] == c);
            }
        }
        lemma_split_append(a, b0, c);
        let t = a + seq![c] + b;
        assert(t.drop_last() =~= a + seq![c] + b0);
        assert(t.last() == b.last());
        assert(b.last() != c) by {
            assert(b[b.len() - 1] == b.last());
        }
        assert(b0.push(b.last()) =~= b);
        let init = split_spec(a, c).push(b0);
        assert(split_spec(t, c) == init.update(init.len() - 1, init.last().push(t.last())));
        assert(init.last() == b0);
        assert(init.update(init.len() - 1, b) =~= split_spec(a, c).push(b));
    }
}

/// Joining pieces that hold no `c` with `c` and cutting the result at `c`
/// gives the pieces back.
pub proof fn lemma_split_join(parts: Seq<Seq<char>>, c: char)
    requires
        parts.len() > 0,
        forall|i: int| 0 <= i < parts.len() ==> !(#[trigger] parts[i]).contains(c),
    ensures
        split_spec(join_spec(parts, seq![c]), c) == parts,
    decreases parts.len(),
{
    if parts.len() == 1 {
        lemma_split_absent(parts[0], c);
        assert(seq![parts[0]] =~= parts);
    } else {
        let init = parts.drop_last();
        assert forall|i: int| 0 <= i < init.len() implies !(#[trigger] init[i]).contains(c) by {
            assert(init[i] == parts[i]);
        }
        lemma_split_join(init, c);
        assert(!parts.last().contains(c)) by {
            assert(parts[parts.len() - 1] == parts.last());
        }
        lemma_split_append(join_spec(init, seq![c]), parts.last(), c);
        assert(init.push(parts.last()) =~= parts);
    }
}

/// Each item of the list with repetitions left out occurs once, and the list
/// holds just the items of the original.
pub proof fn lemma_dedup_distinct(parts: Seq<Seq<char>>)
    ensures
        forall|i: int, j: int|
            0 <= i < j < dedup_spec(parts).len() ==> dedup_spec(parts)[i] != dedup_spec(parts)[j],
        forall|x: Seq<char>| dedup_spec(parts).contains(x) <==> parts.contains(x),
    decreases parts.len(),
{
    if parts.len() > 0 {
        let init = parts.drop_last();
        lemma_dedup_distinct(init);
        let d = dedup_spec(init);
        assert forall|x: Seq<char>| dedup_spec(parts).contains(x) implies parts.contains(x) by {
            let m = choose|m: int| 0 <= m < dedup_spec(parts).len() && dedup_spec(parts)[m] == x;
            if m < d.len() {
                assert(d[m] == x);
                assert(d.contains(x));
                assert(init.contains(x));
                let k = choose|k: int| 0 <= k < init.len() && init[k] == x;
                assert(parts[k] == x);
            } else {
                assert(parts[parts.len() - 1] == x);
            }
        }
        assert forall|x: Seq<char>| parts.contains(x) implies dedup_spec(parts).contains(x) by {
            let k = choose|k: int| 0 <= k < parts.len() && parts[k] == x;
            if k < parts.len() - 1 {
                assert(init[k] == x);
                assert(init.contains(x));
                assert(d.contains(x));
                let m = choose|m: int| 0 <= m < d.len() && d[m] == x;
                if !d.contains(parts.last()) {
                    assert(d.push(parts.last())[m] == x);
                }
            } else {
                if !d.contains(parts.last()) {
                    assert(d.push(parts.last())[d.len() as int] == x);
                }
            }
        }
    }
}


/// Joining pieces that hold no `c` with a separator that holds no `c` gives
/// a text without `c`.
pub proof fn lemma_join_absent(parts: Seq<Seq<char>>, sep: Seq<char>, c: char)
    requires
        !sep.contains(c),
        forall|i: int| 0 <= i < parts.len() ==> !(#[trigger] parts[i]).contains(c),
    ensures
        !join_spec(parts, sep).contains(c),
    decreases parts.len(),
{
    if parts.len() == 1 {
        assert(!parts[0].contains(c));
    } else if parts.len() > 1 {
        let init = parts.drop_last();
        assert forall|i: int| 0 <= i < init.len() implies !(#[trigger] init[i]).contains(c) by {
            assert(init[i] == parts[i]);
        }
        lemma_join_absent(init, sep, c);
        let j = join_spec(init, sep);
        let l = parts.last();
        assert(!l.contains(c)) by {
            assert(parts[parts.len() - 1] == l);
        }
        assert(!(j + sep + l).contains(c)) by {
            if (j + sep + l).contains(c) {
                let k = choose|k: int| 0 <= k < (j + sep + l).len() && (j + sep + l)[k] == c;
                if k < j.len() {
                    assert(j[k] == c);
                } else if k < j.len() + sep.len() {
                    assert(sep[k - j.len()] == c);
                } else {
                    assert(l[k - j.len() - sep.len()] == c);
                }
            }
        }
    }
}


/// Whether two strings hold the same characters.
pub fn str_eq(a: &str, b: &str) -> (r: bool)
    ensures
        r == (a@ == b@),
{
    if a.unicode_len() != b.unicode_len() {
        return false;
    }
    let r = starts_with(a, b);
    assert(a@.take(b@.len() as int) =~= a@);
    r
}

/// The trimmed text, if it is not empty.
pub fn non_empty_trimmed(value: &str) -> (r: Option<String>)
    ensures
        r.deep_view() == non_empty_spec(trim_spec(value@)),
{
    let t = trim(value);
    if t.is_empty() {
        None
    } else {
        Some(String::from_str(t))
    }
}


/// Whether `a` comes before `b` or equals it, character by character (by code
/// point; for strings this is the order of `String`'s `Ord`, as UTF-8 keeps
/// the order of code points).
pub open spec fn lex_le(a: Seq<char>, b: Seq<char>) -> bool
    decreases a.len(),
{
    if a.len() == 0 {
        true
    } else if b.len() == 0 {
        false
    } else if a[0] != b[0] {
        a[0] < b[0]
    } else {
        lex_le(a.drop_first(), b.drop_first())
    }
}

/// Any two texts are ordered one way or the other.
pub proof fn lemma_lex_total(a: Seq<char>, b: Seq<char>)
    ensures
        lex_le(a, b) || lex_le(b, a),
    decreases a.len(),
{
    if a.len() > 0 && b.len() > 0 && a[0] == b[0] {
        lemma_lex_total(a.drop_first(), b.drop_first());
    }
}

/// The order is transitive.
pub proof fn lemma_lex_transitive(a: Seq<char>, b: Seq<char>, c: Seq<char>)
    requires
        lex_le(a, b),
        lex_le(b, c),
    ensures
        lex_le(a, c),
    decreases a.len(),
{
    if a.len() > 0 && b.len() > 0 && c.len() > 0 && a[0] == b[0] && b[0] == c[0] {
        lemma_lex_transitive(a.drop_first(), b.drop_first(), c.drop_first());
    }
}

/// Whether `a` comes before `b` or equals it, character by character.
pub fn lex_le_exec(a: &str, b: &str) -> (r: bool)
    ensures
        r == lex_le(a@, b@),
{
    let n = a.unicode_len();
    let m = b.unicode_len();
    let mut i: usize = 0;
    assert(a@.skip(0) == a@ && b@.skip(0) == b@);
    while i < n && i < m && a.get_char(i) == b.get_char(i)
        invariant
            n == a@.len(),
            m == b@.len(),
            i <= n,
            i <= m,
            lex_le(a@, b@) == lex_le(a@.skip(i as int), b@.skip(i as int)),
        decreases n - i,
    {
        proof {
            let x = a@.skip(i as int);
            let y = b@.skip(i as int);
            assert(x.drop_first() == a@.skip(i + 1));
            assert(y.drop_first() == b@.skip(i + 1));
        }
        i = i + 1;
    }
    let ghost x = a@.skip(i as int);
    let ghost y = b@.skip(i as int);
    if i == n {
        assert(x.len() == 0);
        true
    } else if i == m {
        assert(y.len() == 0 && x.len() > 0);
        false
    } else {
        assert(x[0] == a@[i as int] && y[0] == b@[i as int]);
        a.get_char(i) < b.get_char(i)
    }
}

} // verus!
