use vstd::prelude::*;

verus! {

/// Whether `c` has the Unicode White_Space property (the characters for which
/// `char::is_whitespace` holds): tab to carriage return, space, next line,
/// no-break space, ogham space mark, en quad to hair space, line and
/// paragraph separators, narrow no-break space, medium mathematical space and
/// ideographic space.
pub open spec fn white_space(c: char) -> bool {
    let u = c as u32;
    ||| 0x09 <= u <= 0x0D
    ||| u == 0x20
    ||| u == 0x85
    ||| u == 0xA0
    ||| u == 0x1680
    ||| 0x2000 <= u <= 0x200A
    ||| u == 0x2028
    ||| u == 0x2029
    ||| u == 0x202F
    ||| u == 0x205F
    ||| u == 0x3000
}

fn is_white_space(c: char) -> (r: bool)
    ensures
        r == white_space(c),
{
    let u = c as u32;
    (0x09 <= u && u <= 0x0D) || u == 0x20 || u == 0x85 || u == 0xA0 || u == 0x1680 || (0x2000 <= u
        && u <= 0x200A) || u == 0x2028 || u == 0x2029 || u == 0x202F || u == 0x205F || u == 0x3000
}

/// `l` without its leading white space.
pub open spec fn trim_start(l: Seq<char>) -> Seq<char>
    decreases l.len(),
{
    if l.len() > 0 && white_space(l[0]) {
        trim_start(l.drop_first())
    } else {
        l
    }
}

/// `l` without its trailing white space.
pub open spec fn trim_end(l: Seq<char>) -> Seq<char>
    decreases l.len(),
{
    if l.len() > 0 && white_space(l.last()) {
        trim_end(l.drop_last())
    } else {
        l
    }
}

pub open spec fn trim(l: Seq<char>) -> Seq<char> {
    trim_end(trim_start(l))
}

/// Index of the first line break at or after `i`, or the length of `s`.
pub open spec fn line_end(s: Seq<char>, i: int) -> int
    decreases s.len() - i,
{
    if i >= s.len() {
        s.len() as int
    } else if s[i] == '\n' {
        i
    } else {
        line_end(s, i + 1)
    }
}

/// The words of the lines of `s` that start at or after position `i`: each
/// line trimmed of white space, empty ones left out.
pub open spec fn words_from(s: Seq<char>, i: int) -> Seq<Seq<char>>
    decreases s.len() + 1 - i,
{
    if i < 0 || i > s.len() {
        Seq::empty()
    } else {
        let j = line_end(s, i);
        // always false; it makes termination evident
        if j < i || j > s.len() {
            Seq::empty()
        } else {
            let w = trim(s.subrange(i, j));
            let rest = words_from(s, j + 1);
            if w.len() > 0 {
                seq![w] + rest
            } else {
                rest
            }
        }
    }
}

proof fn lemma_line_end(s: Seq<char>, i: int)
    requires
        0 <= i <= s.len(),
    ensures
        i <= line_end(s, i) <= s.len(),
        forall|k: int| i <= k < line_end(s, i) ==> s[k] != '\n',
        line_end(s, i) < s.len() ==> s[line_end(s, i)] == '\n',
    decreases s.len() - i,
{
    if i < s.len() && s[i] != '\n' {
        lemma_line_end(s, i + 1);
    }
}

proof fn lemma_trim_start(l: Seq<char>, a: int)
    requires
        0 <= a <= l.len(),
        forall|k: int| 0 <= k < a ==> white_space(#[trigger] l[k]),
        a < l.len() ==> !white_space(l[a]),
    ensures
        trim_start(l) == l.subrange(a, l.len() as int),
    decreases a,
{
    if a > 0 {
        let d = l.drop_first();
        assert forall|k: int| 0 <= k < a - 1 implies white_space(#[trigger] d[k]) by {
            assert(d[k] == l[k + 1]);
        }
        lemma_trim_start(d, a - 1);
        assert(d.subrange(a - 1, d.len() as int) =~= l.subrange(a, l.len() as int));
    } else {
        assert(l.subrange(0, l.len() as int) =~= l);
    }
}

proof fn lemma_trim_end(l: Seq<char>, b: int)
    requires
        0 <= b <= l.len(),
        forall|k: int| b <= k < l.len() ==> white_space(#[trigger] l[k]),
        b > 0 ==> !white_space(l[b - 1]),
    ensures
        trim_end(l) == l.subrange(0, b),
    decreases l.len() - b,
{
    if b < l.len() {
        let d = l.drop_last();
        assert forall|k: int| b <= k < d.len() implies white_space(#[trigger] d[k]) by {
            assert(d[k] == l[k]);
        }
        lemma_trim_end(d, b);
        assert(d.subrange(0, b) =~= l.subrange(0, b));
    } else {
        assert(l.subrange(0, b) =~= l);
    }
}

/// The words of a word list text: one per line, trimmed of white space,
/// blank lines left out, in order.
pub fn parse_words(text: &str) -> (r: Vec<String>)
    ensures
        r@.map_values(|w: String| w@) == words_from(text@, 0),
{
    let n = text.unicode_len();
    let ghost s = text@;
    let mut words: Vec<String> = Vec::new();
    let mut i: usize = 0;
    loop
        invariant
            n == s.len(),
            s == text@,
            i <= n,
            words@.map_values(|w: String| w@) + words_from(s, i as int) == words_from(s, 0),
        decreases n + 1 - i,
    {
        proof {
            lemma_line_end(s, i as int);
        }
        let mut j: usize = i;
        while j < n && text.get_char(j) != '\n'
            invariant
                n == s.len(),
                s == text@,
                i <= j <= n,
                line_end(s, i as int) >= j,
                forall|k: int| i <= k < line_end(s, i as int) ==> s[k] != '\n',
                line_end(s, i as int) < s.len() ==> s[line_end(s, i as int)] == '\n',
            decreases n - j,
        {
            j = j + 1;
        }
        assert(j == line_end(s, i as int));
        let mut a: usize = i;
        while a < j && is_white_space(text.get_char(a))
            invariant
                n == s.len(),
                s == text@,
                i <= a <= j <= n,
                forall|k: int| i <= k < a ==> white_space(#[trigger] s[k]),
            decreases j - a,
        {
            a = a + 1;
        }
        let mut b: usize = j;
        while b > a && is_white_space(text.get_char(b - 1))
            invariant
                n == s.len(),
                s == text@,
                i <= a <= b <= j <= n,
                forall|k: int| b <= k < j ==> white_space(#[trigger] s[k]),
            decreases b - a,
        {
            b = b - 1;
        }
        proof {
            let line = s.subrange(i as int, j as int);
            assert forall|k: int| 0 <= k < a - i implies white_space(#[trigger] line[k]) by {
                assert(line[k] == s[i + k]);
            }
            if a < j {
                assert(line[a - i] == s[a as int]);
            }
            lemma_trim_start(line, a - i);
            let st = line.subrange(a - i, line.len() as int);
            assert forall|k: int| b - a <= k < st.len() implies white_space(#[trigger] st[k]) by {
                assert(st[k] == s[a + k]);
            }
            if b > a {
                assert(st[b - a - 1] == s[b - 1]);
            }
            lemma_trim_end(st, b - a);
            assert(trim(line) =~= s.subrange(a as int, b as int));
        }
        let ghost before = words@;
        if a < b {
            let w = String::from_str(text.substring_char(a, b));
            words.push(w);
            assert(words@.map_values(|w: String| w@) =~= before.map_values(|w: String| w@) + seq![
                s.subrange(a as int, b as int),
            ]);
        }
        if j == n {
            assert(words_from(s, j + 1) =~= Seq::<Seq<char>>::empty());
            return words;
        }
        i = j + 1;
    }
}

} // verus!
