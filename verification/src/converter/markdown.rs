//! Markdown to plain text: line-by-line removal of Markdown syntax.
use vstd::prelude::*;
use crate::strings::{
    chars_of, contains_seq, ends_with, find, find_from, find_from_exec, find_char_from,
    lemma_find_from, lemma_leading_ws, leading_ws, leading_ws_exec, push_all,
    push_range, push_repeat, repeat_char, slice_of, starts_with, starts_with_exec, string_of, trim,
    trim_start, trim_chars, trim_start_chars, utf8_len, utf8_width_exec,
};

verus! {

// ---------------------------------------------------------------------------
// Specifications
// ---------------------------------------------------------------------------

/// Removes every pair of `m` markers, scanning from the left: the first `m`, then the next
/// `m` after it; the text between them is kept. Stops when no complete pair is left.
pub open spec fn strip_paired_spec(s: Seq<char>, m: Seq<char>) -> Seq<char>
    decreases s.len(),
{
    if m.len() == 0 {
        s
    } else {
        match find(s, m) {
            None => s,
            Some(start) => match find_from(s, m, start + m.len()) {
                None => s,
                Some(end_pos) => {
                    proof {
                        lemma_find_from(s, m, 0);
                        lemma_find_from(s, m, start + m.len());
                    }
                    strip_paired_spec(
                        s.subrange(0, start) + s.subrange(start + m.len(), end_pos) + s.subrange(
                            end_pos + m.len(),
                            s.len() as int,
                        ),
                        m,
                    )
                },
            },
        }
    }
}

/// `[text](url)` becomes `text`, repeatedly, from the first `[` on.
pub open spec fn strip_links_spec(s: Seq<char>) -> Seq<char>
    decreases s.len(),
{
    match find(s, seq!['[']) {
        None => s,
        Some(b) => match find_from(s, seq![']', '('], b) {
            None => s,
            Some(be) => match find_from(s, seq![')'], be + 2) {
                None => s,
                Some(pe) => {
                    proof {
                        lemma_find_from(s, seq!['['], 0);
                        lemma_find_from(s, seq![']', '('], b);
                        lemma_find_from(s, seq![')'], be + 2);
                        assert(s.subrange(b, b + 1)[0] == '[');
                        assert(s.subrange(be, be + 2)[0] == ']');
                    }
                    strip_links_spec(
                        s.subrange(0, b) + s.subrange(b + 1, be) + s.subrange(pe + 1, s.len() as int),
                    )
                },
            },
        },
    }
}

/// `![alt](url)` becomes `alt`, repeatedly, from the first `![` on.
pub open spec fn strip_images_spec(s: Seq<char>) -> Seq<char>
    decreases s.len(),
{
    match find(s, seq!['!', '[']) {
        None => s,
        Some(i) => match find_from(s, seq![']', '('], i + 2) {
            None => s,
            Some(be) => match find_from(s, seq![')'], be + 2) {
                None => s,
                Some(pe) => {
                    proof {
                        lemma_find_from(s, seq!['!', '['], 0);
                        lemma_find_from(s, seq![']', '('], i + 2);
                        lemma_find_from(s, seq![')'], be + 2);
                    }
                    strip_images_spec(
                        s.subrange(0, i) + s.subrange(i + 2, be) + s.subrange(pe + 1, s.len() as int),
                    )
                },
            },
        },
    }
}

/// An ASCII decimal digit.
pub open spec fn is_ascii_digit(c: char) -> bool {
    '0' <= c && c <= '9'
}

/// Number of leading ASCII digits of `s`.
pub open spec fn leading_digits(s: Seq<char>) -> nat
    decreases s.len(),
{
    if s.len() > 0 && is_ascii_digit(s[0]) {
        1 + leading_digits(s.drop_first())
    } else {
        0
    }
}

/// `N. rest` (one or more digits, a dot and a space) gives `rest`.
pub open spec fn numbered_list_spec(s: Seq<char>) -> Option<Seq<char>> {
    let i = leading_digits(s) as int;
    if i > 0 && i + 1 < s.len() && s[i] == '.' && s[i + 1] == ' ' {
        Some(s.skip(i + 2))
    } else {
        None
    }
}

/// Number of leading `#` characters of `s`.
pub open spec fn leading_hashes(s: Seq<char>) -> nat
    decreases s.len(),
{
    if s.len() > 0 && s[0] == '#' {
        1 + leading_hashes(s.drop_first())
    } else {
        0
    }
}

/// A heading line loses its `#` marks and the white space after them.
pub open spec fn strip_heading_spec(s: Seq<char>) -> Seq<char> {
    if s.len() > 0 && s[0] == '#' {
        trim_start(s.skip(leading_hashes(s) as int))
    } else {
        s
    }
}

/// Emphasis, strike-through, inline code, links and images are reduced to their text, in
/// this order: `**`, `__`, `*`, `_`, `~~`, `` ` ``, links, images.
pub open spec fn strip_inline_spec(s: Seq<char>) -> Seq<char> {
    let s1 = strip_paired_spec(s, seq!['*', '*']);
    let s2 = strip_paired_spec(s1, seq!['_', '_']);
    let s3 = strip_paired_spec(s2, seq!['*']);
    let s4 = strip_paired_spec(s3, seq!['_']);
    let s5 = strip_paired_spec(s4, seq!['~', '~']);
    let s6 = strip_paired_spec(s5, seq!['`']);
    let s7 = strip_links_spec(s6);
    strip_images_spec(s7)
}

/// Every character of `t` is `c` or a space, and `t` holds `c` three times in a row.
pub open spec fn is_rule_of(t: Seq<char>, c: char) -> bool {
    &&& forall|i: int| 0 <= i < t.len() ==> #[trigger] t[i] == c || t[i] == ' '
    &&& contains_seq(t, seq![c, c, c])
}

/// A horizontal rule: `---`, `***` or `___`, possibly spaced.
pub open spec fn is_rule_spec(s: Seq<char>) -> bool {
    let t = trim(s);
    is_rule_of(t, '-') || is_rule_of(t, '*') || is_rule_of(t, '_')
}

/// List markers `- `, `* `, `+ ` and `N. ` are removed; the indentation before them is kept,
/// one space per byte of the removed white space.
pub open spec fn strip_list_spec(s: Seq<char>) -> Seq<char> {
    let n = leading_ws(s) as int;
    let ls = s.skip(n);
    let indent = repeat_char(' ', utf8_len(s.take(n)));
    if starts_with(ls, seq!['-', ' ']) || starts_with(ls, seq!['*', ' ']) || starts_with(
        ls,
        seq!['+', ' '],
    ) {
        indent + ls.skip(2)
    } else {
        match numbered_list_spec(ls) {
            Some(rest) => indent + rest,
            None => s,
        }
    }
}

/// A quote marker `> ` or `>` at the start of the line is removed.
pub open spec fn strip_quote_spec(s: Seq<char>) -> Seq<char> {
    if starts_with(s, seq!['>', ' ']) {
        s.skip(2)
    } else if starts_with(s, seq!['>']) {
        s.skip(1)
    } else {
        s
    }
}

/// One line of Markdown reduced to plain text; a horizontal rule (`---`, `***`, `___`)
/// becomes an empty line. The rule is looked for before the emphasis markers are removed, so
/// that `***` and `___` are not taken for emphasis, and again after, as before.
pub open spec fn strip_markdown_line_spec(line: Seq<char>) -> Seq<char> {
    let h = strip_heading_spec(line);
    let s = strip_inline_spec(h);
    if is_rule_spec(h) || is_rule_spec(s) {
        Seq::empty()
    } else {
        strip_quote_spec(strip_list_spec(s))
    }
}

/// A line without the `\r` of a `\r\n` line ending.
pub open spec fn strip_cr(l: Seq<char>) -> Seq<char> {
    if l.len() > 0 && l.last() == '\r' {
        l.drop_last()
    } else {
        l
    }
}

/// The lines of `s` from index `pos` on, as std's `str::lines` gives them: split at `\n`,
/// a `\r` before the `\n` dropped, no empty line after a final `\n`.
pub open spec fn lines_from(s: Seq<char>, pos: int) -> Seq<Seq<char>>
    decreases s.len() - pos,
{
    if pos < 0 || pos >= s.len() {
        Seq::empty()
    } else {
        match find_from(s, seq!['\n'], pos) {
            None => seq![s.subrange(pos, s.len() as int)],
            Some(k) => {
                proof {
                    lemma_find_from(s, seq!['\n'], pos);
                }
                seq![strip_cr(s.subrange(pos, k))] + lines_from(s, k + 1)
            },
        }
    }
}

/// The lines of `s` (std's `str::lines`).
pub open spec fn lines(s: Seq<char>) -> Seq<Seq<char>> {
    lines_from(s, 0)
}

/// Each line reduced to plain text and followed by `\n`.
pub open spec fn plain_lines(ls: Seq<Seq<char>>) -> Seq<char>
    decreases ls.len(),
{
    if ls.len() == 0 {
        Seq::empty()
    } else {
        plain_lines(ls.drop_last()) + strip_markdown_line_spec(ls.last()) + seq!['\n']
    }
}

/// Markdown document reduced to plain text: every line stripped and ended by `\n`, except
/// that a final `\n` is dropped when the document did not end with one.
pub open spec fn markdown_to_plaintext_spec(content: Seq<char>) -> Seq<char> {
    let r = plain_lines(lines(content));
    if !ends_with(content, seq!['\n']) && r.len() > 0 && r.last() == '\n' {
        r.drop_last()
    } else {
        r
    }
}

/// Texts joined with `\n` between them (as `[String]::join("\n")` does).
pub open spec fn join_lines(ss: Seq<Seq<char>>) -> Seq<char>
    decreases ss.len(),
{
    if ss.len() == 0 {
        Seq::empty()
    } else if ss.len() == 1 {
        ss[0]
    } else {
        join_lines(ss.drop_last()) + seq!['\n'] + ss.last()
    }
}

/// Each line stripped of its Markdown.
pub open spec fn stripped_lines(ls: Seq<Seq<char>>) -> Seq<Seq<char>> {
    ls.map_values(|l: Seq<char>| strip_markdown_line_spec(l))
}

/// Ending every stripped line with `\n` is joining them with `\n` and ending the last.
proof fn lemma_plain_lines_join(ls: Seq<Seq<char>>)
    ensures
        ls.len() > 0 ==> plain_lines(ls) == join_lines(stripped_lines(ls)) + seq!['\n'],
        ls.len() == 0 ==> plain_lines(ls) == Seq::<char>::empty(),
    decreases ls.len(),
{
    if ls.len() > 1 {
        lemma_plain_lines_join(ls.drop_last());
        let st = stripped_lines(ls);
        assert(st.drop_last() =~= stripped_lines(ls.drop_last()));
        assert(st.last() == strip_markdown_line_spec(ls.last()));
        assert(join_lines(st) == join_lines(st.drop_last()) + seq!['\n'] + st.last());
        assert(plain_lines(ls) == plain_lines(ls.drop_last()) + strip_markdown_line_spec(ls.last())
            + seq!['\n']);
        assert(plain_lines(ls) =~= join_lines(st) + seq!['\n']);
    } else if ls.len() == 1 {
        assert(ls.drop_last() =~= Seq::<Seq<char>>::empty());
        assert(plain_lines(ls.drop_last()) == Seq::<char>::empty());
        assert(stripped_lines(ls)[0] == strip_markdown_line_spec(ls[0]));
        assert(plain_lines(ls) =~= join_lines(stripped_lines(ls)) + seq!['\n']);
    }
}

/// A Markdown document reduced to plain text is its lines, each stripped, joined with `\n`,
/// with a final `\n` exactly when the document ends with one.
pub proof fn law_markdown_is_joined_lines(content: Seq<char>)
    ensures
        markdown_to_plaintext_spec(content) == join_lines(stripped_lines(lines(content))) + if ends_with(
            content,
            seq!['\n'],
        ) {
            seq!['\n']
        } else {
            Seq::<char>::empty()
        },
{
    let ls = lines(content);
    lemma_plain_lines_join(ls);
    if content.len() > 0 {
        assert(ls.len() > 0);
        let j = join_lines(stripped_lines(ls));
        assert((j + seq!['\n']).drop_last() =~= j);
    } else {
        assert(!ends_with(content, seq!['\n']));
    }
}

/// A character that inline Markdown uses as a marker (`*`, `_`, `~`, `` ` ``, `[`, `!`),
/// or a line break.
pub open spec fn is_inline_markup(c: char) -> bool {
    c == '*' || c == '_' || c == '~' || c == '`' || c == '[' || c == '!' || c == '\n'
}

/// Text in which no character is inline markup or a line break.
pub open spec fn free_of_markup(s: Seq<char>) -> bool {
    forall|i: int| 0 <= i < s.len() ==> !is_inline_markup(#[trigger] s[i])
}

/// A pattern that holds a character the text never has occurs nowhere in it, so there is
/// no pair of it to remove.
proof fn lemma_absent_marker(x: Seq<char>, m: Seq<char>, q: int)
    requires
        0 <= q < m.len(),
        forall|i: int| 0 <= i < x.len() ==> #[trigger] x[i] != m[q],
    ensures
        find(x, m) is None,
        strip_paired_spec(x, m) == x,
{
    lemma_find_from(x, m, 0);
    if let Some(k) = find(x, m) {
        assert(x.subrange(k, k + m.len())[q] == x[k + q]);
    }
}

/// The first occurrence of `~~` at or after `from` in `x` is at `at`, when `x` holds `~~`
/// there and no `~` between.
proof fn lemma_tildes_at(x: Seq<char>, from: int, at: int)
    requires
        0 <= from <= at,
        at + 1 < x.len(),
        x[at] == '~',
        x[at + 1] == '~',
        forall|i: int| from <= i < at ==> #[trigger] x[i] != '~',
    ensures
        find_from(x, seq!['~', '~'], from) == Some(at),
{
    let m = seq!['~', '~'];
    lemma_find_from(x, m, from);
    assert(x.subrange(at, at + 2) =~= m);
    assert(crate::strings::matches_at(x, m, at));
    if let Some(k) = find_from(x, m, from) {
        if k < at {
            assert(x.subrange(k, k + 2)[0] == x[k]);
        }
    }
}

/// Struck-through text keeps its words: on a line `a ~~s~~ b` whose `s` holds no Markdown
/// markup, the `~~` pair is removed and the text between it kept, giving `a s b`.
pub proof fn law_strikethrough_keeps_its_text(s: Seq<char>)
    requires
        free_of_markup(s),
    ensures
        markdown_to_plaintext_spec("a ~~"@ + s + "~~ b"@) == "a "@ + s + " b"@,
{
    reveal_strlit("a ~~");
    reveal_strlit("~~ b");
    reveal_strlit("a ");
    reveal_strlit(" b");
    let n = s.len() as int;
    let x = seq!['a', ' ', '~', '~'] + s + seq!['~', '~', ' ', 'b'];
    let y = seq!['a', ' '] + s + seq![' ', 'b'];
    assert("a ~~"@ + s + "~~ b"@ =~= x);
    assert("a "@ + s + " b"@ =~= y);
    assert(forall|i: int| 0 <= i < n ==> #[trigger] x[4 + i] == s[i]);
    assert(forall|i: int| 0 <= i < n ==> #[trigger] y[2 + i] == s[i]);
    assert forall|i: int| 0 <= i < x.len() implies !is_inline_markup(#[trigger] x[i]) || x[i] == '~' by {
        if 4 <= i < 4 + n {
            assert(x[i] == s[i - 4]);
        }
    }
    assert forall|i: int| 0 <= i < y.len() implies !is_inline_markup(#[trigger] y[i]) by {
        if 2 <= i < 2 + n {
            assert(y[i] == s[i - 2]);
        }
    }
    // The emphasis markers are absent from the line.
    lemma_absent_marker(x, seq!['*', '*'], 0);
    lemma_absent_marker(x, seq!['_', '_'], 0);
    lemma_absent_marker(x, seq!['*'], 0);
    lemma_absent_marker(x, seq!['_'], 0);
    // The `~~` pair is found at both ends of `s`.
    assert forall|i: int| 4 <= i < 4 + n implies #[trigger] x[i] != '~' by {
        assert(x[i] == s[i - 4]);
    }
    lemma_tildes_at(x, 0, 2);
    lemma_tildes_at(x, 4, 4 + n);
    assert(x.subrange(0, 2) + x.subrange(4, 4 + n) + x.subrange(6 + n, x.len() as int) =~= y);
    lemma_absent_marker(y, seq!['~', '~'], 0);
    assert(strip_paired_spec(x, seq!['~', '~']) == y);
    lemma_absent_marker(y, seq!['`'], 0);
    lemma_absent_marker(y, seq!['['], 0);
    lemma_absent_marker(y, seq!['!', '['], 0);
    assert(strip_inline_spec(x) == y);
    // The line is no heading, rule, list item or quote.
    assert(strip_heading_spec(x) == x);
    assert(leading_ws(x) == 0);
    assert(crate::strings::trailing_ws(x) == 0);
    assert(trim(x) =~= x);
    assert(!is_rule_of(x, '-') && !is_rule_of(x, '*') && !is_rule_of(x, '_')) by {
        assert(x[0] == 'a');
    }
    assert(leading_ws(y) == 0);
    assert(crate::strings::trailing_ws(y) == 0);
    assert(trim(y) =~= y);
    assert(!is_rule_of(y, '-') && !is_rule_of(y, '*') && !is_rule_of(y, '_')) by {
        assert(y[0] == 'a');
    }
    assert(y.skip(0) =~= y);
    assert(leading_digits(y) == 0);
    assert(y.subrange(0, 2)[0] == 'a');
    assert(strip_list_spec(y) == y);
    assert(y.subrange(0, 1)[0] == 'a');
    assert(strip_quote_spec(y) == y);
    assert(strip_markdown_line_spec(x) == y);
    // The line is the whole document, which does not end with a line break.
    lemma_absent_marker(x, seq!['\n'], 0);
    lemma_find_from(x, seq!['\n'], 0);
    assert(x.subrange(0, x.len() as int) =~= x);
    assert(lines(x) == seq![x]);
    let ls = seq![x];
    assert(ls.drop_last() =~= Seq::<Seq<char>>::empty());
    assert(plain_lines(Seq::<Seq<char>>::empty()) == Seq::<char>::empty());
    assert(ls.last() == x);
    assert(plain_lines(ls) == plain_lines(ls.drop_last()) + strip_markdown_line_spec(x) + seq!['\n']);
    assert(plain_lines(ls) =~= y + seq!['\n']);
    assert(!ends_with(x, seq!['\n'])) by {
        assert(x.subrange(x.len() - 1, x.len() as int)[0] == 'b');
    }
    assert((y + seq!['\n']).drop_last() =~= y);
}

// ---------------------------------------------------------------------------
// Executable functions
// ---------------------------------------------------------------------------

/// Removes paired markers `m` from `s` (see `strip_paired_spec`).
pub fn strip_paired_chars(s: Vec<char>, m: &Vec<char>) -> (r: Vec<char>)
    requires
        m@.len() > 0,
    ensures
        r@ == strip_paired_spec(s@, m@),
{
    let mut result = s;
    loop
        invariant
            m@.len() > 0,
            strip_paired_spec(s@, m@) == strip_paired_spec(result@, m@),
        ensures
            strip_paired_spec(s@, m@) == result@,
        decreases result@.len(),
    {
        let _len = result.len();
        let start = match find_from_exec(&result, m, 0) {
            None => break,
            Some(start) => start,
        };
        proof {
            lemma_find_from(result@, m@, 0);
        }
        let end_pos = match find_from_exec(&result, m, start + m.len()) {
            None => break,
            Some(e) => e,
        };
        proof {
            lemma_find_from(result@, m@, start + m@.len());
        }
        let mut next: Vec<char> = Vec::new();
        push_range(&mut next, &result, 0, start);
        push_range(&mut next, &result, start + m.len(), end_pos);
        push_range(&mut next, &result, end_pos + m.len(), result.len());
        result = next;
    }
    result
}

/// Removes paired markers such as `**` or `~~` (see `strip_paired_spec`).
pub fn strip_paired_markers(s: &str, marker: &str) -> (r: String)
    requires
        marker@.len() > 0,
    ensures
        r@ == strip_paired_spec(s@, marker@),
{
    let v = chars_of(s);
    let m = chars_of(marker);
    let out = strip_paired_chars(v, &m);
    string_of(&out)
}

/// Removes single-character markers such as `*` or `` ` `` in pairs (see `strip_paired_spec`).
pub fn strip_single_markers(s: &str, marker: char) -> (r: String)
    ensures
        r@ == strip_paired_spec(s@, seq![marker]),
{
    let v = chars_of(s);
    let mut m: Vec<char> = Vec::new();
    m.push(marker);
    assert(m@ =~= seq![marker]);
    let out = strip_paired_chars(v, &m);
    string_of(&out)
}

/// A vector holding the given characters.
fn chars2(a: char, b: char) -> (r: Vec<char>)
    ensures
        r@ == seq![a, b],
{
    let mut r: Vec<char> = Vec::new();
    r.push(a);
    r.push(b);
    assert(r@ =~= seq![a, b]);
    r
}

/// A vector holding one character.
fn chars1(a: char) -> (r: Vec<char>)
    ensures
        r@ == seq![a],
{
    let mut r: Vec<char> = Vec::new();
    r.push(a);
    assert(r@ =~= seq![a]);
    r
}

/// `[text](url)` becomes `text` (see `strip_links_spec`).
pub fn strip_links_chars(s: Vec<char>) -> (r: Vec<char>)
    ensures
        r@ == strip_links_spec(s@),
{
    let open = chars1('[');
    let mid = chars2(']', '(');
    let close = chars1(')');
    let mut result = s;
    loop
        invariant
            open@ == seq!['['],
            mid@ == seq![']', '('],
            close@ == seq![')'],
            strip_links_spec(s@) == strip_links_spec(result@),
        ensures
            strip_links_spec(s@) == result@,
        decreases result@.len(),
    {
        let _len = result.len();
        let b = match find_from_exec(&result, &open, 0) {
            None => break,
            Some(b) => b,
        };
        let be = match find_from_exec(&result, &mid, b) {
            None => break,
            Some(be) => be,
        };
        proof {
            lemma_find_from(result@, seq!['['], 0);
            lemma_find_from(result@, seq![']', '('], b as int);
            assert(result@.subrange(b as int, b + 1)[0] == '[');
            assert(result@.subrange(be as int, be + 2)[0] == ']');
        }
        let pe = match find_from_exec(&result, &close, be + 2) {
            None => break,
            Some(pe) => pe,
        };
        proof {
            lemma_find_from(result@, seq![')'], be + 2);
        }
        let mut next: Vec<char> = Vec::new();
        push_range(&mut next, &result, 0, b);
        push_range(&mut next, &result, b + 1, be);
        push_range(&mut next, &result, pe + 1, result.len());
        result = next;
    }
    result
}

/// `[text](url)` becomes `text`, for every link (see `strip_links_spec`).
pub fn strip_links(s: &str) -> (r: String)
    ensures
        r@ == strip_links_spec(s@),
{
    let v = chars_of(s);
    let out = strip_links_chars(v);
    string_of(&out)
}

/// `![alt](url)` becomes `alt` (see `strip_images_spec`).
pub fn strip_images_chars(s: Vec<char>) -> (r: Vec<char>)
    ensures
        r@ == strip_images_spec(s@),
{
    let open = chars2('!', '[');
    let mid = chars2(']', '(');
    let close = chars1(')');
    let mut result = s;
    loop
        invariant
            open@ == seq!['!', '['],
            mid@ == seq![']', '('],
            close@ == seq![')'],
            strip_images_spec(s@) == strip_images_spec(result@),
        ensures
            strip_images_spec(s@) == result@,
        decreases result@.len(),
    {
        let _len = result.len();
        let i = match find_from_exec(&result, &open, 0) {
            None => break,
            Some(i) => i,
        };
        proof {
            lemma_find_from(result@, seq!['!', '['], 0);
        }
        let be = match find_from_exec(&result, &mid, i + 2) {
            None => break,
            Some(be) => be,
        };
        proof {
            lemma_find_from(result@, seq![']', '('], i + 2);
        }
        let pe = match find_from_exec(&result, &close, be + 2) {
            None => break,
            Some(pe) => pe,
        };
        proof {
            lemma_find_from(result@, seq![')'], be + 2);
        }
        let mut next: Vec<char> = Vec::new();
        push_range(&mut next, &result, 0, i);
        push_range(&mut next, &result, i + 2, be);
        push_range(&mut next, &result, pe + 1, result.len());
        result = next;
    }
    result
}

/// `![alt](url)` becomes `alt`, for every image (see `strip_images_spec`).
pub fn strip_images(s: &str) -> (r: String)
    ensures
        r@ == strip_images_spec(s@),
{
    let v = chars_of(s);
    let out = strip_images_chars(v);
    string_of(&out)
}


/// Number of leading ASCII digits of `s`.
fn leading_digits_exec(s: &Vec<char>) -> (n: usize)
    ensures
        n == leading_digits(s@),
{
    let mut i: usize = 0;
    assert(s@.skip(0) =~= s@);
    while i < s.len() && '0' <= s[i] && s[i] <= '9'
        invariant
            i <= s@.len(),
            leading_digits(s@) == i + leading_digits(s@.skip(i as int)),
        decreases s@.len() - i,
    {
        assert(s@.skip(i as int).drop_first() =~= s@.skip(i + 1));
        i = i + 1;
    }
    i
}

/// Number of leading `#` characters of `s`.
fn leading_hashes_exec(s: &Vec<char>) -> (n: usize)
    ensures
        n == leading_hashes(s@),
{
    let mut i: usize = 0;
    assert(s@.skip(0) =~= s@);
    while i < s.len() && s[i] == '#'
        invariant
            i <= s@.len(),
            leading_hashes(s@) == i + leading_hashes(s@.skip(i as int)),
        decreases s@.len() - i,
    {
        assert(s@.skip(i as int).drop_first() =~= s@.skip(i + 1));
        i = i + 1;
    }
    i
}

/// `N. rest` gives `rest` (see `numbered_list_spec`).
fn numbered_list_chars(s: &Vec<char>) -> (r: Option<Vec<char>>)
    ensures
        match r {
            Some(v) => numbered_list_spec(s@) == Some(v@),
            None => numbered_list_spec(s@) is None,
        },
{
    let i = leading_digits_exec(s);
    if i > 0 && i < s.len() && s.len() - i > 1 && s[i] == '.' && s[i + 1] == ' ' {
        let rest = slice_of(s, i + 2, s.len());
        assert(rest@ =~= s@.skip(i + 2));
        Some(rest)
    } else {
        None
    }
}

/// Removes a numbered-list prefix such as `1. ` (see `numbered_list_spec`).
pub fn strip_numbered_list(s: &str) -> (r: Option<String>)
    ensures
        match r {
            Some(t) => numbered_list_spec(s@) == Some(t@),
            None => numbered_list_spec(s@) is None,
        },
{
    let v = chars_of(s);
    match numbered_list_chars(&v) {
        Some(rest) => Some(string_of(&rest)),
        None => None,
    }
}

/// Drops `#` heading marks (see `strip_heading_spec`).
fn strip_heading_chars(s: Vec<char>) -> (r: Vec<char>)
    ensures
        r@ == strip_heading_spec(s@),
{
    if s.len() > 0 && s[0] == '#' {
        let n = leading_hashes_exec(&s);
        proof {
            lemma_leading_hashes(s@);
        }
        let rest = slice_of(&s, n, s.len());
        assert(rest@ =~= s@.skip(n as int));
        trim_start_chars(&rest)
    } else {
        s
    }
}

/// `leading_hashes` never exceeds the length.
proof fn lemma_leading_hashes(s: Seq<char>)
    ensures
        leading_hashes(s) <= s.len(),
    decreases s.len(),
{
    if s.len() > 0 && s[0] == '#' {
        lemma_leading_hashes(s.drop_first());
    }
}

/// Emphasis, code, links and images reduced to text (see `strip_inline_spec`).
fn strip_inline_chars(s: Vec<char>) -> (r: Vec<char>)
    ensures
        r@ == strip_inline_spec(s@),
{
    let s1 = strip_paired_chars(s, &chars2('*', '*'));
    let s2 = strip_paired_chars(s1, &chars2('_', '_'));
    let s3 = strip_paired_chars(s2, &chars1('*'));
    let s4 = strip_paired_chars(s3, &chars1('_'));
    let s5 = strip_paired_chars(s4, &chars2('~', '~'));
    let s6 = strip_paired_chars(s5, &chars1('`'));
    let s7 = strip_links_chars(s6);
    strip_images_chars(s7)
}

/// Whether `t` is made of `c` and spaces and holds `ccc` (see `is_rule_of`).
fn is_rule_of_exec(t: &Vec<char>, c: char) -> (r: bool)
    ensures
        r == is_rule_of(t@, c),
{
    let mut i: usize = 0;
    while i < t.len()
        invariant
            i <= t@.len(),
            forall|j: int| 0 <= j < i ==> #[trigger] t@[j] == c || t@[j] == ' ',
        decreases t@.len() - i,
    {
        if t[i] != c && t[i] != ' ' {
            return false;
        }
        i = i + 1;
    }
    let mut pat: Vec<char> = Vec::new();
    pat.push(c);
    pat.push(c);
    pat.push(c);
    assert(pat@ =~= seq![c, c, c]);
    let found = find_from_exec(t, &pat, 0);
    proof {
        lemma_find_from(t@, seq![c, c, c], 0);
    }
    found.is_some()
}

/// Whether the stripped line is a horizontal rule (see `is_rule_spec`).
fn is_rule_chars(s: &Vec<char>) -> (r: bool)
    ensures
        r == is_rule_spec(s@),
{
    let t = trim_chars(s);
    is_rule_of_exec(&t, '-') || is_rule_of_exec(&t, '*') || is_rule_of_exec(&t, '_')
}

/// Appends one space per UTF-8 byte of `s[0..n]`.
fn push_indent(out: &mut Vec<char>, s: &Vec<char>, n: usize)
    requires
        n <= s@.len(),
    ensures
        final(out)@ == old(out)@ + repeat_char(' ', utf8_len(s@.take(n as int))),
{
    let mut i: usize = 0;
    assert(s@.take(0) =~= Seq::<char>::empty());
    assert(old(out)@ + repeat_char(' ', 0) =~= old(out)@);
    while i < n
        invariant
            i <= n <= s@.len(),
            out@ == old(out)@ + repeat_char(' ', utf8_len(s@.take(i as int))),
        decreases n - i,
    {
        let w = utf8_width_exec(s[i]);
        push_repeat(out, ' ', w);
        proof {
            assert(s@.take(i + 1).drop_last() =~= s@.take(i as int));
            assert(s@.take(i + 1).last() == s@[i as int]);
            let a = utf8_len(s@.take(i as int));
            assert(repeat_char(' ', a) + repeat_char(' ', w as nat) =~= repeat_char(' ', (a + w) as nat));
            assert(old(out)@ + repeat_char(' ', a) + repeat_char(' ', w as nat) =~= old(out)@
                + (repeat_char(' ', a) + repeat_char(' ', w as nat)));
        }
        i = i + 1;
    }
}

/// Removes list markers, keeping the indentation (see `strip_list_spec`).
fn strip_list_chars(s: Vec<char>) -> (r: Vec<char>)
    ensures
        r@ == strip_list_spec(s@),
{
    proof {
        lemma_leading_ws(s@);
    }
    let n = leading_ws_exec(&s);
    let ls = slice_of(&s, n, s.len());
    assert(ls@ =~= s@.skip(n as int));
    let bullet = (starts_with_exec(&ls, &chars2('-', ' ')) || starts_with_exec(
        &ls,
        &chars2('*', ' '),
    ) || starts_with_exec(&ls, &chars2('+', ' ')));
    if bullet {
        let mut out: Vec<char> = Vec::new();
        push_indent(&mut out, &s, n);
        push_range(&mut out, &ls, 2, ls.len());
        assert(ls@.subrange(2, ls@.len() as int) =~= ls@.skip(2));
        assert(out@ =~= repeat_char(' ', utf8_len(s@.take(n as int))) + ls@.skip(2));
        out
    } else {
        match numbered_list_chars(&ls) {
            Some(rest) => {
                let mut out: Vec<char> = Vec::new();
                push_indent(&mut out, &s, n);
                push_all(&mut out, &rest);
                assert(out@ =~= repeat_char(' ', utf8_len(s@.take(n as int))) + rest@);
                out
            },
            None => s,
        }
    }
}

/// Removes a leading quote marker (see `strip_quote_spec`).
fn strip_quote_chars(s: Vec<char>) -> (r: Vec<char>)
    ensures
        r@ == strip_quote_spec(s@),
{
    if starts_with_exec(&s, &chars2('>', ' ')) {
        let r = slice_of(&s, 2, s.len());
        assert(r@ =~= s@.skip(2));
        r
    } else if starts_with_exec(&s, &chars1('>')) {
        let r = slice_of(&s, 1, s.len());
        assert(r@ =~= s@.skip(1));
        r
    } else {
        s
    }
}

/// One Markdown line reduced to plain text (see `strip_markdown_line_spec`).
fn strip_markdown_line_chars(line: Vec<char>) -> (r: Vec<char>)
    ensures
        r@ == strip_markdown_line_spec(line@),
{
    let h = strip_heading_chars(line);
    let rule_before = is_rule_chars(&h);
    let s = strip_inline_chars(h);
    if rule_before || is_rule_chars(&s) {
        let e: Vec<char> = Vec::new();
        assert(e@ =~= Seq::<char>::empty());
        e
    } else {
        strip_quote_chars(strip_list_chars(s))
    }
}

/// Strips the Markdown syntax from one line: headings, emphasis, strike-through, inline code,
/// links, images, horizontal rules, list markers and quote markers.
pub fn strip_markdown_line(line: &str) -> (r: String)
    ensures
        r@ == strip_markdown_line_spec(line@),
{
    let v = chars_of(line);
    let out = strip_markdown_line_chars(v);
    string_of(&out)
}

/// Converts a Markdown document to plain text, line by line (see `markdown_to_plaintext_spec`).
pub fn markdown_to_plaintext(content: &str) -> (r: String)
    ensures
        r@ == markdown_to_plaintext_spec(content@),
{
    let c = chars_of(content);
    let mut out: Vec<char> = Vec::new();
    let mut pos: usize = 0;
    let ghost mut done: Seq<Seq<char>> = Seq::empty();
    let len = c.len();
    while pos < len
        invariant
            len == c@.len(),
            pos <= len,
            lines(c@) == done + lines_from(c@, pos as int),
            out@ == plain_lines(done),
        decreases len - pos,
    {
        let ghost before = done;
        match find_char_from(&c, '\n', pos) {
            None => {
                let line = slice_of(&c, pos, len);
                let stripped = strip_markdown_line_chars(line);
                push_all(&mut out, &stripped);
                out.push('\n');
                proof {
                    done = done.push(c@.subrange(pos as int, len as int));
                    assert(lines_from(c@, len as int) =~= Seq::<Seq<char>>::empty());
                    assert(done.drop_last() =~= before);
                    assert(lines(c@) =~= done + lines_from(c@, len as int));
                }
                pos = len;
            },
            Some(k) => {
                proof {
                    lemma_find_from(c@, seq!['\n'], pos as int);
                }
                let mut line = slice_of(&c, pos, k);
                if line.len() > 0 && line[line.len() - 1] == '\r' {
                    line.pop();
                    assert(line@ =~= strip_cr(c@.subrange(pos as int, k as int)));
                }
                let stripped = strip_markdown_line_chars(line);
                push_all(&mut out, &stripped);
                out.push('\n');
                proof {
                    done = done.push(strip_cr(c@.subrange(pos as int, k as int)));
                    assert(done.drop_last() =~= before);
                    assert(lines(c@) =~= done + lines_from(c@, k + 1));
                }
                pos = k + 1;
            },
        }
    }
    proof {
        assert(done + lines_from(c@, pos as int) =~= done);
    }
    let ends_nl = c.len() > 0 && c[c.len() - 1] == '\n';
    proof {
        if c@.len() > 0 {
            assert(c@.subrange(c@.len() - 1, c@.len() as int) =~= seq![c@.last()]);
        }
        assert(ends_with(c@, seq!['\n']) == ends_nl) by {
            if ends_with(c@, seq!['\n']) {
                assert(c@.subrange(c@.len() - 1, c@.len() as int)[0] == c@[c@.len() - 1]);
            }
        }
    }
    if !ends_nl && out.len() > 0 && out[out.len() - 1] == '\n' {
        out.pop();
    }
    string_of(&out)
}

/// Plain text is already valid Markdown: the content is returned unchanged.
pub fn plaintext_to_markdown(content: &str) -> (r: String)
    ensures
        r@ == content@,
{
    let v = chars_of(content);
    string_of(&v)
}

} // verus!
