//! Text as sequences of characters: white space, words, numbers and padding.

use vstd::prelude::*;

verus! {

/// `String::push` appends one character.
pub assume_specification[ String::push ](s: &mut String, c: char)
    ensures
        final(s)@ == old(s)@.push(c),
;

/// The characters of `s`, one by one.
pub fn chars_of(s: &str) -> (r: Vec<char>)
    ensures
        r@ == s@,
{
    let mut out: Vec<char> = Vec::new();
    for c in it: s.chars()
        invariant
            out@ == s@.take(it.index() as int),
            it.seq() == s@,
    {
        out.push(c);
        assert(s@.take(it.index() + 1) =~= s@.take(it.index() as int).push(c));
    }
    assert(s@.take(s@.len() as int) =~= s@);
    out
}

/// The string made of the characters of `v`.
pub fn string_of(v: &[char]) -> (r: String)
    ensures
        r@ == v@,
{
    let mut out: String = String::new();
    for i in 0..v.len()
        invariant
            out@ == v@.take(i as int),
    {
        out.push(v[i]);
        assert(v@.take(i + 1) =~= v@.take(i as int).push(v[i as int]));
    }
    assert(v@.take(v@.len() as int) =~= v@);
    out
}

/// Whether two strings hold the same characters.
pub fn same_text(a: &str, b: &str) -> (r: bool)
    ensures
        r == (a@ == b@),
{
    a.to_owned() == b.to_owned()
}

/// White space, as Unicode's `White_Space` property has it.
pub open spec fn is_space(c: char) -> bool {
    let n = c as u32;
    ||| 0x09 <= n <= 0x0d
    ||| n == 0x20
    ||| n == 0x85
    ||| n == 0xa0
    ||| n == 0x1680
    ||| 0x2000 <= n <= 0x200a
    ||| n == 0x2028
    ||| n == 0x2029
    ||| n == 0x202f
    ||| n == 0x205f
    ||| n == 0x3000
}

pub fn is_whitespace(c: char) -> (r: bool)
    ensures
        r == is_space(c),
{
    let n: u32 = c as u32;
    (0x09 <= n && n <= 0x0d) || n == 0x20 || n == 0x85 || n == 0xa0 || n == 0x1680 || (0x2000 <= n
        && n <= 0x200a) || n == 0x2028 || n == 0x2029 || n == 0x202f || n == 0x205f || n == 0x3000
}

/// `s` without its leading white space.
pub open spec fn trim_start(s: Seq<char>) -> Seq<char>
    decreases s.len(),
{
    if s.len() > 0 && is_space(s[0]) {
        trim_start(s.drop_first())
    } else {
        s
    }
}

/// `s` without its trailing white space.
pub open spec fn trim_end(s: Seq<char>) -> Seq<char>
    decreases s.len(),
{
    if s.len() > 0 && is_space(s.last()) {
        trim_end(s.drop_last())
    } else {
        s
    }
}

/// `s` without the white space at its two ends.
pub open spec fn trimmed(s: Seq<char>) -> Seq<char> {
    trim_end(trim_start(s))
}

/// Whether `s` holds nothing but white space.
pub open spec fn is_blank(s: Seq<char>) -> bool {
    forall|i: int| 0 <= i < s.len() ==> is_space(#[trigger] s[i])
}

/// A text trims to nothing exactly when it is blank.
pub proof fn law_blank_iff_trims_to_nothing(s: Seq<char>)
    ensures
        is_blank(s) <==> trimmed(s).len() == 0,
{
    lemma_trim_start(s);
    let t = trim_start(s);
    lemma_trim_end(t);
    if trimmed(s).len() == 0 {
        if t.len() > 0 {
            assert(is_space(t[0]));
        }
    }
}

proof fn lemma_trim_start(s: Seq<char>)
    ensures
        trim_start(s).len() <= s.len(),
        trim_start(s) == s.skip(s.len() - trim_start(s).len()),
        forall|i: int| 0 <= i < s.len() - trim_start(s).len() ==> is_space(#[trigger] s[i]),
        trim_start(s).len() > 0 ==> !is_space(trim_start(s)[0]),
    decreases s.len(),
{
    if s.len() > 0 && is_space(s[0]) {
        let r = s.drop_first();
        lemma_trim_start(r);
        assert(trim_start(s) =~= s.skip(s.len() - trim_start(s).len()));
        assert forall|i: int| 0 <= i < s.len() - trim_start(s).len() implies is_space(
            #[trigger] s[i],
        ) by {
            if i > 0 {
                assert(s[i] == r[i - 1]);
            }
        }
    } else {
        assert(s =~= s.skip(0));
    }
}

proof fn lemma_trim_end(s: Seq<char>)
    ensures
        trim_end(s).len() <= s.len(),
        trim_end(s) == s.take(trim_end(s).len() as int),
        forall|i: int| trim_end(s).len() <= i < s.len() ==> is_space(#[trigger] s[i]),
        trim_end(s).len() > 0 ==> !is_space(trim_end(s).last()),
    decreases s.len(),
{
    if s.len() > 0 && is_space(s.last()) {
        let r = s.drop_last();
        lemma_trim_end(r);
        assert(trim_end(s) =~= s.take(trim_end(s).len() as int));
        assert forall|i: int| trim_end(s).len() <= i < s.len() implies is_space(
            #[trigger] s[i],
        ) by {
            if i < s.len() - 1 {
                assert(s[i] == r[i]);
            }
        }
    } else {
        assert(s =~= s.take(s.len() as int));
    }
}

/// The trimmed characters of `s`.
pub fn trim_chars(s: &[char]) -> (r: Vec<char>)
    ensures
        r@ == trimmed(s@),
{
    let mut a: usize = 0;
    assert(s@.skip(0) =~= s@);
    while a < s.len() && is_whitespace(s[a])
        invariant
            a <= s@.len(),
            trim_start(s@) == trim_start(s@.skip(a as int)),
        decreases s@.len() - a,
    {
        assert(s@.skip(a as int).drop_first() =~= s@.skip(a + 1));
        a = a + 1;
    }
    let ghost t = s@.skip(a as int);
    assert(trim_start(s@) == t);
    let mut b: usize = s.len();
    assert(t =~= s@.subrange(a as int, b as int));
    while b > a && is_whitespace(s[b - 1])
        invariant
            a <= b <= s@.len(),
            trim_end(t) == trim_end(s@.subrange(a as int, b as int)),
        decreases b,
    {
        assert(s@.subrange(a as int, b as int).drop_last() =~= s@.subrange(a as int, b - 1));
        b = b - 1;
    }
    sub_chars(s, a, b)
}

/// The characters of `s` from `a` up to, not including, `b`.
pub fn sub_chars(s: &[char], a: usize, b: usize) -> (r: Vec<char>)
    requires
        a <= b <= s@.len(),
    ensures
        r@ == s@.subrange(a as int, b as int),
{
    let mut out: Vec<char> = Vec::new();
    for i in a..b
        invariant
            b <= s@.len(),
            a <= b,
            out@ == s@.subrange(a as int, i as int),
    {
        out.push(s[i]);
        assert(s@.subrange(a as int, i + 1) =~= s@.subrange(a as int, i as int).push(s[i as int]));
    }
    out
}

/// `s` without the white space at its two ends.
pub fn trim(s: &str) -> (r: String)
    ensures
        r@ == trimmed(s@),
{
    let chars: Vec<char> = chars_of(s);
    let inner: Vec<char> = trim_chars(chars.as_slice());
    string_of(inner.as_slice())
}

/// Whether `s` holds nothing but white space.
pub fn is_blank_text(s: &str) -> (r: bool)
    ensures
        r == is_blank(s@),
        r == (trimmed(s@).len() == 0),
{
    proof {
        law_blank_iff_trims_to_nothing(s@);
    }
    let chars: Vec<char> = chars_of(s);
    for i in 0..chars.len()
        invariant
            forall|j: int| 0 <= j < i ==> is_space(#[trigger] chars@[j]),
            chars@ == s@,
            is_blank(s@) <==> trimmed(s@).len() == 0,
    {
        if !is_whitespace(chars[i]) {
            return false;
        }
    }
    true
}

/// How many characters stand before the first white space of `s`.
pub open spec fn word_len(s: Seq<char>) -> nat
    decreases s.len(),
{
    if s.len() == 0 || is_space(s[0]) {
        0
    } else {
        1 + word_len(s.drop_first())
    }
}

pub proof fn lemma_word_len(s: Seq<char>)
    ensures
        word_len(s) <= s.len(),
        forall|i: int| 0 <= i < word_len(s) ==> !is_space(#[trigger] s[i]),
        word_len(s) < s.len() ==> is_space(s[word_len(s) as int]),
    decreases s.len(),
{
    if s.len() > 0 && !is_space(s[0]) {
        let r = s.drop_first();
        lemma_word_len(r);
        assert forall|i: int| 0 <= i < word_len(s) implies !is_space(#[trigger] s[i]) by {
            if i > 0 {
                assert(s[i] == r[i - 1]);
            }
        }
    }
}

/// The words of `s`: its longest runs without white space, from left to right.
pub open spec fn words(s: Seq<char>) -> Seq<Seq<char>>
    decreases s.len(),
{
    if s.len() == 0 {
        Seq::empty()
    } else if is_space(s[0]) {
        words(s.drop_first())
    } else {
        let n = word_len(s) as int;
        if 0 < n <= s.len() {
            seq![s.take(n)] + words(s.skip(n))
        } else {
            Seq::empty()
        }
    }
}

/// The views of a list of strings.
pub open spec fn texts(v: Seq<String>) -> Seq<Seq<char>> {
    v.map_values(|s: String| s@)
}

/// The words of `s`, from left to right.
pub fn split_whitespace(s: &str) -> (r: Vec<String>)
    ensures
        texts(r@) == words(s@),
{
    let chars: Vec<char> = chars_of(s);
    let mut out: Vec<String> = Vec::new();
    let mut i: usize = 0;
    assert(chars@.skip(0) =~= chars@);
    assert(texts(out@) =~= Seq::<Seq<char>>::empty());
    assert(words(s@) =~= texts(out@) + words(chars@.skip(0)));
    while i < chars.len()
        invariant
            i <= chars@.len(),
            chars@ == s@,
            words(s@) == texts(out@) + words(chars@.skip(i as int)),
        decreases chars@.len() - i,
    {
        let ghost rest = chars@.skip(i as int);
        if is_whitespace(chars[i]) {
            assert(rest.drop_first() =~= chars@.skip(i + 1));
            i = i + 1;
        } else {
            proof {
                lemma_word_len(rest);
            }
            let mut j: usize = i;
            while j < chars.len() && !is_whitespace(chars[j])
                invariant
                    i <= j <= chars@.len(),
                    rest == chars@.skip(i as int),
                    forall|k: int| i <= k < j ==> !is_space(#[trigger] chars@[k]),
                decreases chars@.len() - j,
            {
                j = j + 1;
            }
            proof {
                let n = word_len(rest) as int;
                assert(rest[0] == chars@[i as int]);
                if n < j - i {
                    assert(rest[n] == chars@[i + n]);
                }
                if n > j - i {
                    assert(rest[j - i] == chars@[j as int]);
                }
                assert(n == j - i);
                assert(rest.take(n) =~= chars@.subrange(i as int, j as int));
                assert(rest.skip(n) =~= chars@.skip(j as int));
            }
            let word: Vec<char> = sub_chars(chars.as_slice(), i, j);
            let ghost before = out@;
            out.push(string_of(word.as_slice()));
            proof {
                let w = out@.last();
                assert(texts(out@) =~= texts(before).push(w@));
                assert(words(rest) == seq![w@] + words(chars@.skip(j as int)));
                assert(texts(before) + (seq![w@] + words(chars@.skip(j as int))) =~= texts(out@)
                    + words(chars@.skip(j as int)));
            }
            i = j;
        }
    }
    assert(chars@.skip(i as int).len() == 0);
    assert(texts(out@) =~= words(s@));
    out
}

/// `parts` put after one another with `sep` between each two.
pub open spec fn joined(parts: Seq<Seq<char>>, sep: Seq<char>) -> Seq<char>
    decreases parts.len(),
{
    if parts.len() == 0 {
        Seq::empty()
    } else if parts.len() == 1 {
        parts[0]
    } else {
        joined(parts.drop_last(), sep) + sep + parts.last()
    }
}

/// `parts` put after one another with `sep` between each two.
pub fn join(parts: &[String], sep: &str) -> (r: String)
    ensures
        r@ == joined(texts(parts@), sep@),
{
    let mut out: String = String::new();
    for i in 0..parts.len()
        invariant
            out@ == joined(texts(parts@.take(i as int)), sep@),
    {
        proof {
            let t = texts(parts@.take(i + 1));
            assert(t.drop_last() =~= texts(parts@.take(i as int)));
            assert(t.last() == parts@[i as int]@);
        }
        if i > 0 {
            out.append(sep);
        }
        out.append(parts[i].as_str());
        assert(out@ =~= joined(texts(parts@.take(i + 1)), sep@));
    }
    assert(parts@.take(parts@.len() as int) =~= parts@);
    out
}

/// The words of `s` with one space between each two.
pub open spec fn respaced(s: Seq<char>) -> Seq<char> {
    joined(words(s), seq![' '])
}

/// `input` with every run of white space replaced by one space, and none at the ends.
pub fn normalize_whitespace(input: &str) -> (r: String)
    ensures
        r@ == respaced(input@),
{
    let parts: Vec<String> = split_whitespace(input);
    proof {
        reveal_strlit(" ");
        assert(" "@ =~= seq![' ']);
    }
    join(parts.as_slice(), " ")
}

pub(crate) proof fn lemma_word(w: Seq<char>)
    requires
        w.len() > 0,
        forall|i: int| 0 <= i < w.len() ==> !is_space(#[trigger] w[i]),
    ensures
        words(w) == seq![w],
{
    lemma_word_len(w);
    let n = word_len(w) as int;
    if n < w.len() {
        assert(is_space(w[n]));
    }
    assert(w.take(n) =~= w);
    assert(w.skip(n).len() == 0);
    assert(seq![w.take(n)] + words(w.skip(n)) =~= seq![w]);
}

/// Text, then a space, then one word: the words are those of the text and that word.
proof fn lemma_words_push(s: Seq<char>, w: Seq<char>)
    requires
        w.len() > 0,
        forall|i: int| 0 <= i < w.len() ==> !is_space(#[trigger] w[i]),
    ensures
        words(s + seq![' '] + w) == words(s).push(w),
    decreases s.len(),
{
    let t = s + seq![' '] + w;
    if s.len() == 0 {
        assert(t.drop_first() =~= w);
        lemma_word(w);
        assert(words(s).push(w) =~= seq![w]);
    } else if is_space(s[0]) {
        assert(t.drop_first() =~= s.drop_first() + seq![' '] + w);
        lemma_words_push(s.drop_first(), w);
    } else {
        lemma_word_len(s);
        lemma_word_len(t);
        let n = word_len(s) as int;
        let m = word_len(t) as int;
        if n < m {
            if n < s.len() {
                assert(t[n] == s[n]);
            } else {
                assert(t[n] == ' ');
            }
        }
        if m < n {
            assert(t[m] == s[m]);
        }
        assert(t.take(n) =~= s.take(n));
        assert(t.skip(n) =~= s.skip(n) + seq![' '] + w);
        lemma_words_push(s.skip(n), w);
        assert(seq![s.take(n)] + words(s.skip(n)).push(w) =~= (seq![s.take(n)] + words(
            s.skip(n),
        )).push(w));
    }
}

proof fn lemma_words_are_words(s: Seq<char>)
    ensures
        forall|k: int, i: int|
            0 <= k < words(s).len() && 0 <= i < words(s)[k].len() ==> !is_space(
                #[trigger] words(s)[k][i],
            ),
        forall|k: int| 0 <= k < words(s).len() ==> (#[trigger] words(s)[k]).len() > 0,
    decreases s.len(),
{
    if s.len() == 0 {
        assert(words(s).len() == 0);
    } else if is_space(s[0]) {
        lemma_words_are_words(s.drop_first());
        assert(words(s) == words(s.drop_first()));
    } else {
        lemma_word_len(s);
        let n = word_len(s) as int;
        lemma_words_are_words(s.skip(n));
        assert forall|k: int, i: int|
            0 <= k < words(s).len() && 0 <= i < words(s)[k].len() implies !is_space(
            #[trigger] words(s)[k][i],
        ) by {
            if k > 0 {
                assert(words(s)[k] == words(s.skip(n))[k - 1]);
                assert(!is_space(words(s.skip(n))[k - 1][i]));
            } else {
                assert(words(s)[k][i] == s[i]);
            }
        }
        assert forall|k: int| 0 <= k < words(s).len() implies (#[trigger] words(s)[k]).len()
            > 0 by {
            if k > 0 {
                assert(words(s)[k] == words(s.skip(n))[k - 1]);
            }
        }
    }
}

proof fn lemma_words_of_joined(ws: Seq<Seq<char>>)
    requires
        forall|k: int, i: int|
            0 <= k < ws.len() && 0 <= i < ws[k].len() ==> !is_space(#[trigger] ws[k][i]),
        forall|k: int| 0 <= k < ws.len() ==> (#[trigger] ws[k]).len() > 0,
    ensures
        words(joined(ws, seq![' '])) == ws,
    decreases ws.len(),
{
    if ws.len() == 0 {
        assert(ws =~= Seq::empty());
    } else if ws.len() == 1 {
        assert(ws[0].len() > 0);
        lemma_word(ws[0]);
        assert(ws =~= seq![ws[0]]);
    } else {
        let front = ws.drop_last();
        assert forall|k: int, i: int|
            0 <= k < front.len() && 0 <= i < front[k].len() implies !is_space(
            #[trigger] front[k][i],
        ) by {
            assert(!is_space(ws[k][i]));
        }
        lemma_words_of_joined(front);
        assert(ws[ws.len() - 1].len() > 0);
        lemma_words_push(joined(front, seq![' ']), ws.last());
        assert(front.push(ws.last()) =~= ws);
    }
}

/// Putting single spaces between the words of a text keeps its words.
pub proof fn law_respacing_keeps_words(s: Seq<char>)
    ensures
        words(respaced(s)) == words(s),
{
    lemma_words_are_words(s);
    lemma_words_of_joined(words(s));
}

/// Normalizing white space twice is normalizing it once.
pub proof fn law_respacing_is_idempotent(s: Seq<char>)
    ensures
        respaced(respaced(s)) == respaced(s),
{
    law_respacing_keeps_words(s);
}

/// The words of the first `n` texts, one text after the other.
pub open spec fn words_among(parts: Seq<Seq<char>>, n: nat) -> Seq<Seq<char>>
    decreases n,
{
    if n == 0 {
        Seq::empty()
    } else {
        words_among(parts, (n - 1) as nat) + words(parts[n - 1])
    }
}

/// The words of two texts with white space between them are those of the first, then those of
/// the second.
pub proof fn law_words_of_two_texts(a: Seq<char>, space: char, b: Seq<char>)
    requires
        is_space(space),
    ensures
        words(a + seq![space] + b) == words(a) + words(b),
    decreases a.len(),
{
    let t = a + seq![space] + b;
    if a.len() == 0 {
        assert(t.drop_first() =~= b);
        assert(words(a) + words(b) =~= words(b));
    } else if is_space(a[0]) {
        assert(t.drop_first() =~= a.drop_first() + seq![space] + b);
        law_words_of_two_texts(a.drop_first(), space, b);
    } else {
        lemma_word_len(a);
        lemma_word_len(t);
        let n = word_len(a) as int;
        let m = word_len(t) as int;
        if n < m {
            if n < a.len() {
                assert(t[n] == a[n]);
            } else {
                assert(t[n] == space);
            }
        }
        if m < n {
            assert(t[m] == a[m]);
        }
        assert(t.take(n) =~= a.take(n));
        assert(t.skip(n) =~= a.skip(n) + seq![space] + b);
        law_words_of_two_texts(a.skip(n), space, b);
        assert(seq![a.take(n)] + (words(a.skip(n)) + words(b)) =~= (seq![a.take(n)] + words(
            a.skip(n),
        )) + words(b));
    }
}

pub(crate) proof fn lemma_words_among_alike(a: Seq<Seq<char>>, b: Seq<Seq<char>>, n: nat)
    requires
        n <= a.len(),
        n <= b.len(),
        forall|i: int| 0 <= i < n ==> a[i] == b[i],
    ensures
        words_among(a, n) == words_among(b, n),
    decreases n,
{
    if n > 0 {
        lemma_words_among_alike(a, b, (n - 1) as nat);
    }
}

/// The words of texts joined by spaces are the words of each, one text after the other.
pub proof fn law_words_of_joined_texts(parts: Seq<Seq<char>>)
    ensures
        words(joined(parts, seq![' '])) == words_among(parts, parts.len()),
    decreases parts.len(),
{
    if parts.len() == 0 {
    } else if parts.len() == 1 {
        assert(words_among(parts, 1) == words_among(parts, 0) + words(parts[0]));
        assert(words_among(parts, 1) =~= words(parts[0]));
    } else {
        let front = parts.drop_last();
        law_words_of_joined_texts(front);
        law_words_of_two_texts(joined(front, seq![' ']), ' ', parts.last());
        lemma_words_among_alike(front, parts, front.len());
    }
}

/// The words of each of several texts stand among the words of all of them, unbroken and in
/// order.
pub proof fn law_words_of_a_part(parts: Seq<Seq<char>>, i: int, n: nat)
    requires
        0 <= i < n <= parts.len(),
    ensures
        ({
            let from = words_among(parts, i as nat).len() as int;
            let to = words_among(parts, (i + 1) as nat).len() as int;
            let all = words_among(parts, n);
            &&& to == from + words(parts[i]).len()
            &&& to <= all.len()
            &&& all.subrange(from, to) == words(parts[i])
        }),
    decreases n,
{
    let from = words_among(parts, i as nat).len() as int;
    let to = words_among(parts, (i + 1) as nat).len() as int;
    let all = words_among(parts, n);
    if i == n - 1 {
        assert(all.subrange(from, to) =~= words(parts[i]));
    } else {
        law_words_of_a_part(parts, i, (n - 1) as nat);
        let before = words_among(parts, (n - 1) as nat);
        assert(all.subrange(from, to) =~= before.subrange(from, to));
    }
}

/// What white space is written between and around words does not change them: a text that is
/// given back with single spaces has the words it had, and no white space but those spaces.
pub proof fn law_respaced_is_its_words_joined(s: Seq<char>)
    ensures
        respaced(s) == joined(words(s), seq![' ']),
        respaced(s).len() == 0 <==> words(s).len() == 0,
{
    lemma_words_are_words(s);
    law_respacing_keeps_words(s);
    if words(s).len() > 0 && respaced(s).len() == 0 {
        assert(words(respaced(s)).len() == 0);
    }
}

/// Every word is a run of characters of the text without white space in it, and a text without
/// words is nothing but white space.
pub proof fn law_words_are_runs_of_the_text(s: Seq<char>, k: int)
    ensures
        words(s).len() == 0 <==> is_blank(s),
        0 <= k < words(s).len() ==> words(s)[k].len() > 0 && contains_run(s, words(s)[k]),
        0 <= k < words(s).len() ==> forall|i: int|
            0 <= i < words(s)[k].len() ==> !is_space(#[trigger] words(s)[k][i]),
    decreases s.len(),
{
    lemma_words_are_words(s);
    if s.len() == 0 {
    } else if is_space(s[0]) {
        let r = s.drop_first();
        law_words_are_runs_of_the_text(r, k);
        if is_blank(r) {
            assert forall|i: int| 0 <= i < s.len() implies is_space(#[trigger] s[i]) by {
                if i > 0 {
                    assert(s[i] == r[i - 1]);
                }
            }
        }
        if is_blank(s) {
            assert forall|i: int| 0 <= i < r.len() implies is_space(#[trigger] r[i]) by {
                assert(r[i] == s[i + 1]);
            }
        }
        if 0 <= k < words(s).len() {
            let w = words(s)[k];
            let i = choose|i: int|
                0 <= i && i + w.len() <= r.len() && #[trigger] r.subrange(i, i + w.len()) == w;
            assert(s.subrange(i + 1, i + 1 + w.len()) =~= w);
        }
    } else {
        lemma_word_len(s);
        let n = word_len(s) as int;
        let r = s.skip(n);
        assert(!is_blank(s)) by {
            assert(!is_space(s[0]));
        }
        if 0 <= k < words(s).len() {
            let w = words(s)[k];
            if k == 0 {
                assert(s.subrange(0int, 0int + w.len()) =~= w);
            } else {
                law_words_are_runs_of_the_text(r, k - 1);
                assert(words(s)[k] == words(r)[k - 1]);
                let i = choose|i: int|
                    0 <= i && i + w.len() <= r.len() && #[trigger] r.subrange(i, i + w.len()) == w;
                assert(s.subrange(i + n, i + n + w.len()) =~= w);
            }
        }
    }
}

/// A text contains another exactly where it is some text, then the other, then some text.
pub proof fn law_containing_is_having_a_middle(hay: Seq<char>, needle: Seq<char>)
    ensures
        contains_run(hay, needle) <==> exists|a: Seq<char>, b: Seq<char>|
            hay == #[trigger] (a + needle + b),
{
    if contains_run(hay, needle) {
        let i = choose|i: int|
            0 <= i && i + needle.len() <= hay.len() && #[trigger] hay.subrange(
                i,
                i + needle.len(),
            ) == needle;
        let a = hay.take(i);
        let b = hay.skip(i + needle.len());
        assert(hay =~= a + needle + b) by {
            assert forall|k: int| 0 <= k < hay.len() implies hay[k] == (a + needle + b)[k] by {
                if i <= k < i + needle.len() {
                    assert(hay.subrange(i, i + needle.len())[k - i] == hay[k]);
                }
            }
        }
    }
    if exists|a: Seq<char>, b: Seq<char>| hay == #[trigger] (a + needle + b) {
        let (a, b) = choose|a: Seq<char>, b: Seq<char>| hay == #[trigger] (a + needle + b);
        let i = a.len() as int;
        assert(hay.subrange(i, i + needle.len()) =~= needle);
    }
}

proof fn lemma_trimmed_ends(s: Seq<char>)
    ensures
        trimmed(s).len() > 0 ==> !is_space(trimmed(s)[0]) && !is_space(trimmed(s).last()),
{
    lemma_trim_start(s);
    let t = trim_start(s);
    lemma_trim_end(t);
    if trimmed(s).len() > 0 {
        assert(trimmed(s)[0] == t[0]);
    }
}

/// Trimming takes white space off the two ends and nothing else.
pub proof fn law_trimming_takes_off_white_space(before: Seq<char>, s: Seq<char>, after: Seq<char>)
    requires
        is_blank(before),
        is_blank(after),
    ensures
        s.len() > 0 && !is_space(s[0]) && !is_space(s.last()) ==> trimmed(before + s + after) == s,
        trimmed(s).len() > 0 ==> !is_space(trimmed(s)[0]) && !is_space(trimmed(s).last()),
        contains_run(s, trimmed(s)),
{
    lemma_trimmed_ends(s);
    lemma_trim_start(s);
    lemma_trim_end(trim_start(s));
    let from = s.len() - trim_start(s).len();
    assert(s.subrange(from, from + trimmed(s).len()) =~= trimmed(s));
    if s.len() > 0 && !is_space(s[0]) && !is_space(s.last()) {
        let t = before + s + after;
        lemma_trim_start(t);
        let u = trim_start(t);
        let cut = t.len() - u.len();
        assert(t[before.len() as int] == s[0]);
        if cut > before.len() {
            assert(is_space(t[before.len() as int]));
        }
        if cut < before.len() {
            assert(u[0] == t[cut]);
            assert(t[cut] == before[cut]);
        }
        assert(u =~= s + after);
        lemma_trim_end(u);
        let v = trim_end(u);
        assert(u[s.len() - 1] == s.last());
        if v.len() < s.len() {
            assert(is_space(u[s.len() - 1]));
        }
        if v.len() > s.len() {
            assert(v.last() == u[v.len() - 1]);
            assert(u[v.len() - 1] == after[v.len() - 1 - s.len()]);
        }
        assert(v =~= s);
    }
}

/// A number reads back from how it is written.
pub proof fn law_decimal_reads_back(n: nat)
    ensures
        digits_value(decimal(n)) == n,
        all_digits(decimal(n)),
        decimal(n).len() > 0,
        n <= u64::MAX ==> unsigned_value(decimal(n)) == Some(n),
    decreases n,
{
    if n < 10 {
        assert(decimal(n) =~= seq![digit_char(n)]);
        assert(decimal(n).drop_last() =~= Seq::<char>::empty());
        assert(digits_value(Seq::<char>::empty()) == 0);
        assert(digits_value(decimal(n)) == digits_value(decimal(n).drop_last()) * 10 + (
        decimal(n).last() as nat - 48) as nat);
    } else {
        law_decimal_reads_back(n / 10);
        let front = decimal(n / 10);
        assert(decimal(n).drop_last() =~= front);
        assert(decimal(n).last() == digit_char(n % 10));
        assert forall|i: int| 0 <= i < decimal(n).len() implies is_digit(
            #[trigger] decimal(n)[i],
        ) by {
            if i < front.len() {
                assert(is_digit(front[i]));
            }
        }
    }
    assert(is_digit(decimal(n)[0]));
}

/// Padding brings a text to a width with spaces, and never cuts it.
pub proof fn law_padding_adds_spaces(s: Seq<char>, width: nat)
    ensures
        s.is_prefix_of(padded_right(s, width)),
        s.is_suffix_of(padded_left(s, width)),
        padded_right(s, width).len() == if s.len() > width { s.len() } else { width },
        padded_left(s, width).len() == if s.len() > width { s.len() } else { width },
        forall|i: int|
            s.len() <= i < padded_right(s, width).len() ==> #[trigger] padded_right(s, width)[i]
                == ' ',
        forall|i: int|
            0 <= i < padded_left(s, width).len() - s.len() ==> #[trigger] padded_left(
                s,
                width,
            )[i] == ' ',
{
    assert(padded_right(s, width).subrange(0, s.len() as int) =~= s);
    let t = padded_left(s, width);
    assert(t.subrange(t.len() - s.len(), t.len() as int) =~= s);
}

/// Whether `needle` stands in `hay` as one unbroken run.
pub open spec fn contains_run(hay: Seq<char>, needle: Seq<char>) -> bool {
    exists|i: int|
        0 <= i && i + needle.len() <= hay.len() && #[trigger] hay.subrange(i, i + needle.len())
            == needle
}

/// Whether `needle` stands in `hay` as one unbroken run.
pub fn contains_chars(hay: &[char], needle: &[char]) -> (r: bool)
    ensures
        r == contains_run(hay@, needle@),
{
    let n: usize = needle.len();
    if n > hay.len() {
        return false;
    }
    let last: usize = hay.len() - n;
    let mut i: usize = 0;
    while i <= last
        invariant
            n == needle@.len(),
            n <= hay@.len() <= usize::MAX,
            last == hay@.len() - n,
            i <= last + 1,
            forall|k: int| 0 <= k < i ==> #[trigger] hay@.subrange(k, k + n) != needle@,
        decreases last + 1 - i,
    {
        let mut j: usize = 0;
        while j < n && hay[i + j] == needle[j]
            invariant
                n == needle@.len(),
                i + n <= hay@.len() <= usize::MAX,
                j <= n,
                forall|k: int| 0 <= k < j ==> hay@[i + k] == #[trigger] needle@[k],
            decreases n - j,
        {
            j = j + 1;
        }
        if j == n {
            assert(hay@.subrange(i as int, i + n) =~= needle@);
            return true;
        }
        assert(hay@.subrange(i as int, i + n)[j as int] == hay@[i + j]);
        if i == last {
            return false;
        }
        i = i + 1;
    }
    false
}

/// Whether `needle` stands in `hay` as one unbroken run.
pub fn contains(hay: &str, needle: &str) -> (r: bool)
    ensures
        r == contains_run(hay@, needle@),
{
    let h: Vec<char> = chars_of(hay);
    let n: Vec<char> = chars_of(needle);
    contains_chars(h.as_slice(), n.as_slice())
}

/// Whether `s` starts with `prefix`.
pub fn starts_with_chars(s: &[char], prefix: &[char]) -> (r: bool)
    ensures
        r == prefix@.is_prefix_of(s@),
{
    if prefix.len() > s.len() {
        return false;
    }
    for i in 0..prefix.len()
        invariant
            prefix@.len() <= s@.len(),
            forall|k: int| 0 <= k < i ==> #[trigger] s@[k] == prefix@[k],
    {
        if s[i] != prefix[i] {
            assert(s@.subrange(0, prefix@.len() as int)[i as int] == s@[i as int]);
            return false;
        }
    }
    assert(s@.subrange(0, prefix@.len() as int) =~= prefix@);
    true
}

/// Whether `s` starts with `prefix`.
pub fn starts_with(s: &str, prefix: &str) -> (r: bool)
    ensures
        r == prefix@.is_prefix_of(s@),
{
    let a: Vec<char> = chars_of(s);
    let b: Vec<char> = chars_of(prefix);
    starts_with_chars(a.as_slice(), b.as_slice())
}

/// A character, with the letters from A to Z in lower case.
pub open spec fn ascii_lower(c: char) -> char {
    if 'A' <= c <= 'Z' {
        (c as int + 32) as char
    } else {
        c
    }
}

/// A text with the letters from A to Z in lower case.
pub open spec fn ascii_lowered(s: Seq<char>) -> Seq<char> {
    s.map_values(|c: char| ascii_lower(c))
}

/// A text with the letters from A to Z in lower case.
pub fn to_ascii_lower(s: &str) -> (r: String)
    ensures
        r@ == ascii_lowered(s@),
{
    let chars: Vec<char> = chars_of(s);
    let mut out: Vec<char> = Vec::new();
    for i in 0..chars.len()
        invariant
            chars@ == s@,
            out@ == ascii_lowered(s@).take(i as int),
    {
        let c: char = chars[i];
        if 'A' <= c && c <= 'Z' {
            out.push((c as u8 + 32) as char);
        } else {
            out.push(c);
        }
        assert(out@ =~= ascii_lowered(s@).take(i + 1));
    }
    assert(out@ =~= ascii_lowered(s@));
    string_of(out.as_slice())
}

/// What `str::to_lowercase` makes of a text.
pub uninterp spec fn lowercase(s: Seq<char>) -> Seq<char>;

/// `str::to_lowercase`: the result is the Unicode lower case of `s` and depends on nothing
/// but the characters of `s`. What the lower case of a given text is remains unsaid.
#[verifier::external_body]
pub(crate) fn to_lowercase(s: &str) -> (r: String)
    ensures
        r@ == lowercase(s@),
{
    s.to_lowercase()
}

/// The decimal digit `d`.
pub open spec fn digit_char(d: nat) -> char
    recommends
        d < 10,
{
    (48 + d) as u8 as char
}

/// `n` in decimal, without leading zeros.
pub open spec fn decimal(n: nat) -> Seq<char>
    decreases n,
{
    if n < 10 {
        seq![digit_char(n)]
    } else {
        decimal(n / 10).push(digit_char(n % 10))
    }
}

/// `n` in decimal, without leading zeros.
pub fn decimal_text(n: u64) -> (r: String)
    ensures
        r@ == decimal(n as nat),
    decreases n,
{
    if n < 10 {
        let mut out: String = String::new();
        out.push((48 + n as u8) as char);
        assert(out@ =~= decimal(n as nat));
        out
    } else {
        let mut out: String = decimal_text(n / 10);
        out.push((48 + (n % 10) as u8) as char);
        out
    }
}

pub open spec fn is_digit(c: char) -> bool {
    '0' <= c <= '9'
}

/// What a run of decimal digits stands for.
pub open spec fn digits_value(s: Seq<char>) -> nat
    decreases s.len(),
{
    if s.len() == 0 {
        0
    } else {
        digits_value(s.drop_last()) * 10 + (s.last() as nat - 48) as nat
    }
}

pub open spec fn all_digits(s: Seq<char>) -> bool {
    forall|i: int| 0 <= i < s.len() ==> is_digit(#[trigger] s[i])
}

/// The digits of a number that may carry one leading `+`.
pub open spec fn unsigned_digits(s: Seq<char>) -> Seq<char> {
    if s.len() > 0 && s[0] == '+' {
        s.drop_first()
    } else {
        s
    }
}

/// The number that `s` writes: an optional `+`, then at least one digit, and no more than
/// `u64` can hold.
pub open spec fn unsigned_value(s: Seq<char>) -> Option<nat> {
    let d = unsigned_digits(s);
    if d.len() > 0 && all_digits(d) && digits_value(d) <= u64::MAX {
        Some(digits_value(d))
    } else {
        None
    }
}

/// The number that `s` writes.
pub fn parse_unsigned(s: &[char]) -> (r: Option<u64>)
    ensures
        match r {
            Some(n) => unsigned_value(s@) == Some(n as nat),
            None => unsigned_value(s@) is None,
        },
{
    let start: usize = if s.len() > 0 && s[0] == '+' {
        1
    } else {
        0
    };
    let ghost d = unsigned_digits(s@);
    assert(d =~= s@.skip(start as int));
    if start == s.len() {
        return None;
    }
    let mut value: u64 = 0;
    let mut too_large: bool = false;
    let mut i: usize = start;
    while i < s.len()
        invariant
            start <= i <= s@.len(),
            d == s@.skip(start as int),
            d == unsigned_digits(s@),
            all_digits(d.take(i - start)),
            !too_large ==> value == digits_value(d.take(i - start)),
            too_large ==> digits_value(d.take(i - start)) > u64::MAX,
        decreases s@.len() - i,
    {
        let c: char = s[i];
        assert(d[i - start] == c);
        if !('0' <= c && c <= '9') {
            assert(!is_digit(d[i - start]));
            assert(!all_digits(d));
            return None;
        }
        let digit: u64 = (c as u32 - 48) as u64;
        proof {
            let t = d.take(i - start + 1);
            assert(t.drop_last() =~= d.take(i - start));
            assert(t.last() == c);
            assert forall|k: int| 0 <= k < t.len() implies is_digit(#[trigger] t[k]) by {
                if k < i - start {
                    assert(d.take(i - start)[k] == d[k]);
                }
            }
        }
        if !too_large {
            match value.checked_mul(10) {
                Some(v) => {
                    match v.checked_add(digit) {
                        Some(w) => {
                            value = w;
                        },
                        None => {
                            too_large = true;
                        },
                    }
                },
                None => {
                    too_large = true;
                },
            }
        }
        i = i + 1;
    }
    assert(d.take(d.len() as int) =~= d);
    if too_large {
        None
    } else {
        Some(value)
    }
}

/// `n` copies of `c`.
pub open spec fn repeated(c: char, n: nat) -> Seq<char> {
    Seq::new(n, |i: int| c)
}

/// `n` copies of `c`.
pub fn repeat_char(c: char, n: usize) -> (r: String)
    ensures
        r@ == repeated(c, n as nat),
{
    let mut out: String = String::new();
    for i in 0..n
        invariant
            out@ == repeated(c, i as nat),
    {
        out.push(c);
        assert(out@ =~= repeated(c, (i + 1) as nat));
    }
    out
}

/// `s` followed by as many spaces as bring it to `width` characters.
pub open spec fn padded_right(s: Seq<char>, width: nat) -> Seq<char> {
    if s.len() >= width {
        s
    } else {
        s + repeated(' ', (width - s.len()) as nat)
    }
}

/// As many spaces as bring `s` to `width` characters, then `s`.
pub open spec fn padded_left(s: Seq<char>, width: nat) -> Seq<char> {
    if s.len() >= width {
        s
    } else {
        repeated(' ', (width - s.len()) as nat) + s
    }
}

pub fn pad_right(s: &str, width: usize) -> (r: String)
    ensures
        r@ == padded_right(s@, width as nat),
{
    let n: usize = s.unicode_len();
    let mut out: String = s.to_owned();
    if n < width {
        out.append(repeat_char(' ', width - n).as_str());
    }
    out
}

pub fn pad_left(s: &str, width: usize) -> (r: String)
    ensures
        r@ == padded_left(s@, width as nat),
{
    let n: usize = s.unicode_len();
    if n < width {
        let mut out: String = repeat_char(' ', width - n);
        out.append(s);
        out
    } else {
        s.to_owned()
    }
}

/// The first `n` characters of `s`, or all of it where it has fewer.
pub open spec fn clipped(s: Seq<char>, n: nat) -> Seq<char> {
    if s.len() <= n {
        s
    } else {
        s.take(n as int)
    }
}

pub fn clip(s: &str, n: usize) -> (r: String)
    ensures
        r@ == clipped(s@, n as nat),
{
    let chars: Vec<char> = chars_of(s);
    if chars.len() <= n {
        s.to_owned()
    } else {
        let front: Vec<char> = sub_chars(chars.as_slice(), 0, n);
        string_of(front.as_slice())
    }
}

/// `a` with `b` put after it.
pub fn concat(a: &str, b: &str) -> (r: String)
    ensures
        r@ == a@ + b@,
{
    let mut out: String = a.to_owned();
    out.append(b);
    out
}

/// The number of bytes that UTF-8 writes a character in.
pub open spec fn utf8_width(c: char) -> nat {
    let n = c as u32;
    if n < 0x80 {
        1
    } else if n < 0x800 {
        2
    } else if n < 0x1_0000 {
        3
    } else {
        4
    }
}

/// The number of bytes that UTF-8 writes a text in.
pub open spec fn byte_len(s: Seq<char>) -> nat
    decreases s.len(),
{
    if s.len() == 0 {
        0
    } else {
        byte_len(s.drop_last()) + utf8_width(s.last())
    }
}

/// The number of characters that the first `n` bytes of a text hold, where no character stands
/// across that border.
pub open spec fn chars_in_bytes(s: Seq<char>, n: nat) -> Option<nat>
    decreases n,
{
    if n == 0 {
        Some(0)
    } else if s.len() == 0 || utf8_width(s[0]) > n {
        None
    } else {
        match chars_in_bytes(s.skip(1), (n - utf8_width(s[0])) as nat) {
            Some(k) => Some(k + 1),
            None => None,
        }
    }
}

fn width_of(c: char) -> (r: usize)
    ensures
        r == utf8_width(c),
{
    let n: u32 = c as u32;
    if n < 0x80 {
        1
    } else if n < 0x800 {
        2
    } else if n < 0x1_0000 {
        3
    } else {
        4
    }
}

/// Whether a text takes more than `limit` bytes.
pub fn is_longer_than(s: &str, limit: usize) -> (r: bool)
    ensures
        r == (byte_len(s@) > limit),
{
    let chars: Vec<char> = chars_of(s);
    let mut room: usize = limit;
    for i in 0..chars.len()
        invariant
            chars@ == s@,
            room <= limit,
            byte_len(s@.take(i as int)) == limit - room,
    {
        proof {
            assert(s@.take(i + 1).drop_last() =~= s@.take(i as int));
        }
        let w: usize = width_of(chars[i]);
        if w > room {
            proof {
                lemma_byte_len_grows(s@, i + 1);
            }
            return true;
        }
        room = room - w;
    }
    assert(s@.take(s@.len() as int) =~= s@);
    false
}

proof fn lemma_byte_len_grows(s: Seq<char>, i: int)
    requires
        0 <= i <= s.len(),
    ensures
        byte_len(s.take(i)) <= byte_len(s),
    decreases s.len() - i,
{
    if i < s.len() {
        lemma_byte_len_grows(s, i + 1);
        assert(s.take(i + 1).drop_last() =~= s.take(i));
    } else {
        assert(s.take(i) =~= s);
    }
}

/// The first `n` bytes of a text, where no character stands across that border.
pub open spec fn byte_prefix(s: Seq<char>, n: nat) -> Option<Seq<char>> {
    match chars_in_bytes(s, n) {
        Some(k) => Some(s.take(k as int)),
        None => None,
    }
}

/// The first `n` bytes of a text, where no character stands across that border.
pub fn first_bytes(s: &str, n: usize) -> (r: Option<String>)
    ensures
        r is Some <==> byte_prefix(s@, n as nat) is Some,
        r matches Some(p) ==> byte_prefix(s@, n as nat) == Some(p@),
{
    let chars: Vec<char> = chars_of(s);
    let mut i: usize = 0;
    let mut left: usize = n;
    assert(s@.skip(0) =~= s@);
    while left > 0
        invariant
            chars@ == s@,
            i <= s@.len(),
            chars_in_bytes(s@, n as nat) == (match chars_in_bytes(s@.skip(i as int), left as nat) {
                Some(k) => Some(k + i as nat),
                None => None,
            }),
        decreases left,
    {
        if i == chars.len() {
            return None;
        }
        let w: usize = width_of(chars[i]);
        assert(s@.skip(i as int)[0] == s@[i as int]);
        if w > left {
            return None;
        }
        assert(s@.skip(i as int).skip(1) =~= s@.skip(i + 1));
        left = left - w;
        i = i + 1;
    }
    let front: Vec<char> = sub_chars(chars.as_slice(), 0, i);
    assert(front@ =~= s@.take(i as int));
    Some(string_of(front.as_slice()))
}

/// Whether a text of more than `limit` bytes can be cut after `cut` bytes.
pub open spec fn can_cut(s: Seq<char>, limit: nat, cut: nat) -> bool {
    byte_len(s) > limit ==> byte_prefix(s, cut) is Some
}

/// A text of more than `limit` bytes cut after `cut` bytes, with an ellipsis in place of the
/// rest; a shorter one as it is.
pub open spec fn cut_off(s: Seq<char>, limit: nat, cut: nat) -> Seq<char> {
    if byte_len(s) > limit {
        byte_prefix(s, cut)->0 + "\u{2026}"@
    } else {
        s
    }
}

/// Whether a text of more than `limit` bytes can be cut after `cut` bytes.
pub fn is_cuttable(s: &str, limit: usize, cut: usize) -> (r: bool)
    ensures
        r == can_cut(s@, limit as nat, cut as nat),
{
    !is_longer_than(s, limit) || first_bytes(s, cut).is_some()
}

/// A text of more than `limit` bytes cut after `cut` bytes.
pub fn cut_text(s: &str, limit: usize, cut: usize) -> (r: String)
    requires
        can_cut(s@, limit as nat, cut as nat),
    ensures
        r@ == cut_off(s@, limit as nat, cut as nat),
{
    if is_longer_than(s, limit) {
        match first_bytes(s, cut) {
            Some(front) => concat(front.as_str(), "\u{2026}"),
            None => String::new(),
        }
    } else {
        s.to_owned()
    }
}

/// The number of bytes that UTF-8 writes a text in.
pub(crate) fn byte_count(s: &str) -> (r: u128)
    ensures
        r == byte_len(s@),
{
    let chars: Vec<char> = chars_of(s);
    let mut total: u128 = 0;
    for i in 0..chars.len()
        invariant
            chars@ == s@,
            total == byte_len(s@.take(i as int)),
            total <= 4 * i,
    {
        assert(s@.take(i + 1).drop_last() =~= s@.take(i as int));
        total = total + width_of(chars[i]) as u128;
    }
    assert(s@.take(s@.len() as int) =~= s@);
    total
}

/// The pieces of a text between the separators in it.
pub open spec fn split_on(s: Seq<char>, separator: char) -> Seq<Seq<char>>
    decreases s.len(),
{
    if s.len() == 0 {
        seq![Seq::empty()]
    } else {
        let front = split_on(s.drop_last(), separator);
        if s.last() == separator {
            front.push(Seq::empty())
        } else {
            front.drop_last().push(front.last().push(s.last()))
        }
    }
}

/// The pieces of a text between the separators in it.
pub fn split(s: &str, separator: char) -> (r: Vec<String>)
    ensures
        texts(r@) == split_on(s@, separator),
{
    let chars: Vec<char> = chars_of(s);
    let mut done: Vec<String> = Vec::new();
    let mut piece: String = String::new();
    assert(texts(done@).push(piece@) =~= split_on(s@.take(0), separator)) by {
        assert(s@.take(0) =~= Seq::<char>::empty());
        assert(piece@ =~= Seq::<char>::empty());
    }
    for i in 0..chars.len()
        invariant
            chars@ == s@,
            texts(done@).push(piece@) == split_on(s@.take(i as int), separator),
    {
        let ghost was = texts(done@).push(piece@);
        assert(s@.take(i + 1).drop_last() =~= s@.take(i as int));
        assert(was.drop_last() =~= texts(done@));
        if chars[i] == separator {
            done.push(piece);
            piece = String::new();
            assert(piece@ =~= Seq::<char>::empty());
            assert(texts(done@) =~= was);
        } else {
            piece.push(chars[i]);
        }
        assert(texts(done@).push(piece@) =~= split_on(s@.take(i + 1), separator));
    }
    assert(s@.take(s@.len() as int) =~= s@);
    let ghost before = texts(done@);
    done.push(piece);
    assert(texts(done@) =~= before.push(piece@));
    done
}

/// The pieces of a text, joined by the separator, are the text.
pub proof fn law_pieces_join_to_the_text(s: Seq<char>, separator: char)
    ensures
        split_on(s, separator).len() > 0,
        joined(split_on(s, separator), seq![separator]) == s,
    decreases s.len(),
{
    let pieces = split_on(s, separator);
    if s.len() == 0 {
        assert(pieces.drop_last() =~= Seq::<Seq<char>>::empty());
        assert(joined(pieces, seq![separator]) =~= s);
    } else {
        let front = split_on(s.drop_last(), separator);
        law_pieces_join_to_the_text(s.drop_last(), separator);
        if s.last() == separator {
            assert(pieces.drop_last() =~= front);
            assert(joined(pieces, seq![separator]) =~= s);
        } else {
            let rest = front.drop_last();
            assert(pieces.drop_last() =~= rest);
            assert(pieces.last() == front.last().push(s.last()));
            assert(joined(pieces, seq![separator]) =~= joined(front, seq![separator]).push(
                s.last(),
            ));
            assert(s =~= s.drop_last().push(s.last()));
        }
    }
}

/// Texts without the separator in them are the pieces of what joining them by it makes.
pub proof fn law_joined_pieces_are_split_again(parts: Seq<Seq<char>>, separator: char)
    requires
        parts.len() > 0,
        forall|k: int| 0 <= k < parts.len() ==> !(#[trigger] parts[k]).contains(separator),
    ensures
        split_on(joined(parts, seq![separator]), separator) == parts,
    decreases parts.len(),
{
    if parts.len() == 1 {
        assert(!parts[0].contains(separator));
        lemma_piece_is_added(Seq::empty(), parts[0], separator);
        assert(Seq::<char>::empty() + parts[0] =~= parts[0]);
        assert(parts =~= seq![parts[0]]);
        assert(split_on(Seq::empty(), separator) =~= seq![Seq::<char>::empty()]);
        assert(seq![Seq::<char>::empty()].drop_last().push(Seq::<char>::empty() + parts[0])
            =~= parts);
    } else {
        let front = parts.drop_last();
        assert forall|k: int| 0 <= k < front.len() implies !(#[trigger] front[k]).contains(
            separator,
        ) by {
            assert(!parts[k].contains(separator));
        }
        law_joined_pieces_are_split_again(front, separator);
        let before = joined(front, seq![separator]);
        let s = before + seq![separator];
        assert(s.drop_last() =~= before);
        assert(split_on(s, separator) == front.push(Seq::empty()));
        assert(!parts[parts.len() - 1].contains(separator));
        lemma_piece_is_added(s, parts.last(), separator);
        assert(front.push(Seq::<char>::empty() + parts.last()) =~= parts) by {
            assert(Seq::<char>::empty() + parts.last() =~= parts.last());
        }
        assert(split_on(s, separator).drop_last() =~= front);
    }
}

proof fn lemma_piece_is_added(s: Seq<char>, piece: Seq<char>, separator: char)
    requires
        !piece.contains(separator),
    ensures
        split_on(s + piece, separator) == split_on(s, separator).drop_last().push(
            split_on(s, separator).last() + piece,
        ),
    decreases piece.len(),
{
    law_pieces_join_to_the_text(s, separator);
    let pieces = split_on(s, separator);
    if piece.len() == 0 {
        assert(s + piece =~= s);
        assert(pieces.drop_last().push(pieces.last() + piece) =~= pieces) by {
            assert(pieces.last() + piece =~= pieces.last());
        }
    } else {
        let short = piece.drop_last();
        assert(!short.contains(separator)) by {
            if short.contains(separator) {
                let k = choose|k: int| 0 <= k < short.len() && short[k] == separator;
                assert(piece[k] == separator);
            }
        }
        lemma_piece_is_added(s, short, separator);
        let t = s + piece;
        assert(t.drop_last() =~= s + short);
        assert(t.last() == piece.last());
        assert(piece.contains(piece.last()));
        let was = split_on(s + short, separator);
        assert(was.drop_last() =~= pieces.drop_last());
        assert((pieces.last() + short).push(piece.last()) =~= pieces.last() + piece);
    }
}

/// A text is clipped to its beginning, and only where it is longer.
pub proof fn law_clipping_keeps_the_beginning(s: Seq<char>, n: nat)
    ensures
        clipped(s, n).is_prefix_of(s),
        clipped(s, n).len() == if s.len() < n { s.len() } else { n },
{
    assert(clipped(s, n) =~= s.subrange(0, clipped(s, n).len() as int));
}

/// A number may carry one plus sign, and what holds any other character is no number.
pub proof fn law_numbers_are_digits(n: nat, s: Seq<char>, i: int)
    requires
        n <= u64::MAX,
    ensures
        unsigned_value(seq!['+'] + decimal(n)) == Some(n),
        0 < i < s.len() && !('0' <= s[i] <= '9') ==> unsigned_value(s) is None,
        s.len() > 0 && s[0] != '+' && !('0' <= s[0] <= '9') ==> unsigned_value(s) is None,
        unsigned_value(Seq::empty()) is None,
{
    law_decimal_reads_back(n);
    assert((seq!['+'] + decimal(n)).drop_first() =~= decimal(n));
    if 0 < i < s.len() && !('0' <= s[i] <= '9') {
        let d = unsigned_digits(s);
        if d == s {
            assert(!is_digit(d[i]));
        } else {
            assert(d[i - 1] == s[i]);
            assert(!is_digit(d[i - 1]));
        }
    }
    if s.len() > 0 && s[0] != '+' && !('0' <= s[0] <= '9') {
        assert(!is_digit(unsigned_digits(s)[0]));
    }
}

/// Lowering ASCII letters changes the letters from A to Z alone, each to the one with its place
/// in the alphabet; nothing is left of them, and lowering again changes nothing.
pub proof fn law_ascii_letters_are_lowered(s: Seq<char>, i: int)
    requires
        0 <= i < s.len(),
    ensures
        ({
            let t = ascii_lowered(s);
            &&& t.len() == s.len()
            &&& 'A' <= s[i] <= 'Z' ==> t[i] as int - 'a' as int == s[i] as int - 'A' as int
            &&& !('A' <= s[i] <= 'Z') ==> t[i] == s[i]
            &&& ascii_lowered(t) == t
        }),
{
    let t = ascii_lowered(s);
    assert forall|k: int| 0 <= k < t.len() implies ascii_lowered(t)[k] == #[trigger] t[k] by {
        assert(t[k] == ascii_lower(s[k]));
    }
    assert(ascii_lowered(t) =~= t);
}

} // verus!
