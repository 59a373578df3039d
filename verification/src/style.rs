//! The `style` helper's token language: a comma-separated list of style
//! names. Each token is trimmed of surrounding whitespace; the first
//! `bright_` in a token is rewritten to `bright ` (the styling vocabulary
//! separates the two words with a space, while templates prefer an
//! underscore, also inside `on_` tokens); `bold`, `underline`, `italic`,
//! `dimmed`, `reversed`, `blink`, `hidden` and `strikethrough` select text
//! attributes; `on_<colour>` sets the background colour; any other token is
//! a foreground colour name. Colour names are matched lowercase against the
//! fixed vocabulary (the eight ANSI colours, their `bright ` forms,
//! `purple`, and `#rgb`/`#rrggbb` hex forms); a token that names no known
//! colour is ignored, so an unknown style degrades to no styling.

use vstd::prelude::*;

use crate::colorize::{
    st_bg, st_blink, st_bold, st_dimmed, st_fg, st_hidden, st_italic, st_new, st_render,
    st_reversed, st_strikethrough, st_underline, text_of,
};
use crate::engine::{is_ws_char, skip_ws};
use crate::text::{
    chars_eq_str, chars_of_str, chars_views, is_subseq_of, string_from_chars, subvec,
};

verus! {

/// Model of one style token, after trimming and normalization.
pub ghost enum GTok {
    Bold,
    Underline,
    Italic,
    Dimmed,
    Reversed,
    Blink,
    Hidden,
    Strikethrough,
    Fg(Seq<char>),
    Bg(Seq<char>),
    Skip,
}

/// One style token, after trimming and normalization; `Skip` is a token that
/// names no attribute and no known colour.
pub enum StyleTok {
    Bold,
    Underline,
    Italic,
    Dimmed,
    Reversed,
    Blink,
    Hidden,
    Strikethrough,
    Fg(Vec<char>),
    Bg(Vec<char>),
    Skip,
}

impl DeepView for StyleTok {
    type V = GTok;

    open spec fn deep_view(&self) -> GTok {
        match self {
            StyleTok::Bold => GTok::Bold,
            StyleTok::Underline => GTok::Underline,
            StyleTok::Italic => GTok::Italic,
            StyleTok::Dimmed => GTok::Dimmed,
            StyleTok::Reversed => GTok::Reversed,
            StyleTok::Blink => GTok::Blink,
            StyleTok::Hidden => GTok::Hidden,
            StyleTok::Strikethrough => GTok::Strikethrough,
            StyleTok::Fg(n) => GTok::Fg(n@),
            StyleTok::Bg(n) => GTok::Bg(n@),
            StyleTok::Skip => GTok::Skip,
        }
    }
}

/// The position after the last whitespace-free prefix of `[0, j)`: the first
/// `b <= j` such that everything in `[b, j)` is whitespace and `s[b - 1]` is
/// not.
pub open spec fn ws_back(s: Seq<char>, j: int) -> int
    decreases j,
{
    if j <= 0 {
        0
    } else if is_ws_char(s[j - 1]) {
        ws_back(s, j - 1)
    } else {
        j
    }
}

/// `s` with surrounding whitespace removed.
pub open spec fn trim_spec(s: Seq<char>) -> Seq<char> {
    let a = skip_ws(s, 0, s.len() as int);
    let b = ws_back(s, s.len() as int);
    if a <= b {
        s.subrange(a, b)
    } else {
        Seq::empty()
    }
}

/// Index of the first occurrence of `pat` in `s` at or after `i`, or the
/// length of `s` if none.
pub open spec fn find_lit(s: Seq<char>, pat: Seq<char>, i: int) -> int
    decreases s.len() - i,
{
    if i < 0 || i >= s.len() || i + pat.len() > s.len() {
        s.len() as int
    } else if s.subrange(i, i + pat.len()) == pat {
        i
    } else {
        find_lit(s, pat, i + 1)
    }
}

/// The first `bright_` in `s` rewritten to `bright `; `s` itself if none
/// occurs.
pub open spec fn normalize_bright(s: Seq<char>) -> Seq<char> {
    let k = find_lit(s, "bright_"@, 0);
    if k >= s.len() {
        s
    } else {
        s.subrange(0, k) + "bright "@ + s.subrange(k + 7, s.len() as int)
    }
}

/// The ASCII-lowercase form of `c`.
pub open spec fn lower_char(c: char) -> char {
    if c == 'A' {
        'a'
    } else     if c == 'B' {
        'b'
    } else     if c == 'C' {
        'c'
    } else     if c == 'D' {
        'd'
    } else     if c == 'E' {
        'e'
    } else     if c == 'F' {
        'f'
    } else     if c == 'G' {
        'g'
    } else     if c == 'H' {
        'h'
    } else     if c == 'I' {
        'i'
    } else     if c == 'J' {
        'j'
    } else     if c == 'K' {
        'k'
    } else     if c == 'L' {
        'l'
    } else     if c == 'M' {
        'm'
    } else     if c == 'N' {
        'n'
    } else     if c == 'O' {
        'o'
    } else     if c == 'P' {
        'p'
    } else     if c == 'Q' {
        'q'
    } else     if c == 'R' {
        'r'
    } else     if c == 'S' {
        's'
    } else     if c == 'T' {
        't'
    } else     if c == 'U' {
        'u'
    } else     if c == 'V' {
        'v'
    } else     if c == 'W' {
        'w'
    } else     if c == 'X' {
        'x'
    } else     if c == 'Y' {
        'y'
    } else     if c == 'Z' {
        'z'
    } else {
        c
    }
}

/// The ASCII-lowercase form of `s`. Colour names are matched lowercase, as
/// the styling backend matches them; its own lowercasing is Unicode-wide,
/// but the colour vocabulary is ASCII, so this agrees on every name either
/// recognises.
pub open spec fn ascii_lower(s: Seq<char>) -> Seq<char> {
    Seq::new(
        s.len(),
        |i: int|
            if 0 <= i < s.len() {
                lower_char(s[i])
            } else {
                ' '
            },
    )
}

fn lower_char_x(c: char) -> (r: char)
    ensures
        r == lower_char(c),
{
    if c == 'A' {
        'a'
    } else     if c == 'B' {
        'b'
    } else     if c == 'C' {
        'c'
    } else     if c == 'D' {
        'd'
    } else     if c == 'E' {
        'e'
    } else     if c == 'F' {
        'f'
    } else     if c == 'G' {
        'g'
    } else     if c == 'H' {
        'h'
    } else     if c == 'I' {
        'i'
    } else     if c == 'J' {
        'j'
    } else     if c == 'K' {
        'k'
    } else     if c == 'L' {
        'l'
    } else     if c == 'M' {
        'm'
    } else     if c == 'N' {
        'n'
    } else     if c == 'O' {
        'o'
    } else     if c == 'P' {
        'p'
    } else     if c == 'Q' {
        'q'
    } else     if c == 'R' {
        'r'
    } else     if c == 'S' {
        's'
    } else     if c == 'T' {
        't'
    } else     if c == 'U' {
        'u'
    } else     if c == 'V' {
        'v'
    } else     if c == 'W' {
        'w'
    } else     if c == 'X' {
        'x'
    } else     if c == 'Y' {
        'y'
    } else     if c == 'Z' {
        'z'
    } else {
        c
    }
}

fn ascii_lower_chars(v: &Vec<char>) -> (r: Vec<char>)
    ensures
        r@ == ascii_lower(v@),
{
    let n = v.len();
    let mut r: Vec<char> = Vec::new();
    let mut i: usize = 0;
    while i < n
        invariant
            i <= n == v@.len(),
            r@.len() == i,
            forall|j: int| 0 <= j < i ==> r@[j] == lower_char(v@[j]),
        decreases n - i,
    {
        r.push(lower_char_x(v[i]));
        i = i + 1;
    }
    proof {
        assert(r@ =~= ascii_lower(v@));
    }
    r
}

/// A lowercase hexadecimal digit.
pub open spec fn is_hex_digit(c: char) -> bool {
    ('0' as u32 <= c as u32 && c as u32 <= '9' as u32) || ('a' as u32 <= c as u32 && c as u32
        <= 'f' as u32)
}

/// Whether everything in `[i, s.len())` is a hexadecimal digit.
pub open spec fn all_hex(s: Seq<char>, i: int) -> bool {
    forall|j: int| i <= j < s.len() ==> is_hex_digit(s[j])
}

/// The fixed colour vocabulary: the named colours the styling backend
/// recognises (lowercase, with `bright` space-separated), and `#`-prefixed
/// hex forms of three or six digits.
pub open spec fn is_color_name(s: Seq<char>) -> bool {
    ||| s == "black"@
    ||| s == "red"@
    ||| s == "green"@
    ||| s == "yellow"@
    ||| s == "blue"@
    ||| s == "magenta"@
    ||| s == "purple"@
    ||| s == "cyan"@
    ||| s == "white"@
    ||| s == "bright black"@
    ||| s == "bright red"@
    ||| s == "bright green"@
    ||| s == "bright yellow"@
    ||| s == "bright blue"@
    ||| s == "bright magenta"@
    ||| s == "bright cyan"@
    ||| s == "bright white"@
    ||| ((s.len() == 4 || s.len() == 7) && s[0] == '#' && all_hex(s, 1))
}

/// The token spelled by one raw comma-separated piece: trimmed, normalized,
/// then read as an attribute, an `on_` background, or a foreground colour.
pub open spec fn classify(piece: Seq<char>) -> GTok {
    let w = normalize_bright(trim_spec(piece));
    if w == "bold"@ {
        GTok::Bold
    } else if w == "underline"@ {
        GTok::Underline
    } else if w == "italic"@ {
        GTok::Italic
    } else if w == "dimmed"@ {
        GTok::Dimmed
    } else if w == "reversed"@ {
        GTok::Reversed
    } else if w == "blink"@ {
        GTok::Blink
    } else if w == "hidden"@ {
        GTok::Hidden
    } else if w == "strikethrough"@ {
        GTok::Strikethrough
    } else if w.len() >= 3 && w.subrange(0, 3) == "on_"@ {
        let name = ascii_lower(w.subrange(3, w.len() as int));
        if is_color_name(name) {
            GTok::Bg(name)
        } else {
            GTok::Skip
        }
    } else {
        let lw = ascii_lower(w);
        if is_color_name(lw) {
            GTok::Fg(lw)
        } else {
            GTok::Skip
        }
    }
}

/// Index of the first `,` at or after `i`, or the length of `s`.
pub open spec fn find_comma(s: Seq<char>, i: int) -> int
    decreases s.len() - i,
{
    if i < 0 || i >= s.len() {
        s.len() as int
    } else if s[i] == ',' {
        i
    } else {
        find_comma(s, i + 1)
    }
}

/// The comma-separated pieces of `s`, raw (not yet trimmed).
pub open spec fn split_commas(s: Seq<char>) -> Seq<Seq<char>>
    decreases s.len(),
{
    let k = find_comma(s, 0);
    if k < 0 || k >= s.len() {
        seq![s]
    } else {
        seq![s.subrange(0, k)] + split_commas(s.subrange(k + 1, s.len() as int))
    }
}

/// The tokens of a style list: each comma-separated piece classified.
pub open spec fn style_tokens(s: Seq<char>) -> Seq<GTok> {
    Seq::new(
        split_commas(s).len(),
        |i: int|
            if 0 <= i < split_commas(s).len() {
                classify(split_commas(s)[i])
            } else {
                GTok::Skip
            },
    )
}

/// First non-whitespace position in `[i, hi)` of `v`, as `skip_ws` says.
pub(crate) fn skip_ws_at(v: &Vec<char>, i: usize, hi: usize) -> (r: usize)
    requires
        i <= hi <= v@.len(),
    ensures
        r == skip_ws(v@, i as int, hi as int),
        i <= r <= hi,
{
    let mut j = i;
    while j < hi
        invariant
            i <= j <= hi <= v@.len(),
            skip_ws(v@, i as int, hi as int) == skip_ws(v@, j as int, hi as int),
        decreases hi - j,
    {
        if !is_ws(v[j]) {
            return j;
        }
        j = j + 1;
    }
    j
}

/// Whether `c` is tag whitespace, as `is_ws_char` says.
pub(crate) fn is_ws(c: char) -> (r: bool)
    ensures
        r == is_ws_char(c),
{
    c == ' ' || c == '\t' || c == '\r' || c == '\n'
}

fn trim_chars(v: &Vec<char>) -> (r: Vec<char>)
    ensures
        r@ == trim_spec(v@),
{
    let n = v.len();
    let a = skip_ws_at(v, 0, n);
    let mut b = n;
    while b > 0 && is_ws(v[b - 1])
        invariant
            b <= n == v@.len(),
            ws_back(v@, n as int) == ws_back(v@, b as int),
        decreases b,
    {
        b = b - 1;
    }
    proof {
        assert(ws_back(v@, b as int) == b);
    }
    if a <= b {
        subvec(v, a, b)
    } else {
        Vec::new()
    }
}

/// Whether `v@.subrange(k, k + p@.len()) == p@`, for `k + p@.len() <= v@.len()`.
fn range_eq(v: &Vec<char>, k: usize, p: &Vec<char>) -> (r: bool)
    requires
        k + p@.len() <= v@.len(),
    ensures
        r == (v@.subrange(k as int, k + p@.len()) == p@),
{
    let m = p.len();
    let n = v.len();
    let mut i: usize = 0;
    while i < m
        invariant
            m == p@.len(),
            i <= m,
            n == v@.len(),
            k + m <= n,
            forall|j: int| 0 <= j < i ==> v@[k + j] == p@[j],
        decreases m - i,
    {
        if v[k + i] != p[i] {
            proof {
                assert(v@.subrange(k as int, k + p@.len())[i as int] == v@[k + i]);
            }
            return false;
        }
        i = i + 1;
    }
    proof {
        assert(v@.subrange(k as int, k + p@.len()) =~= p@);
    }
    true
}

fn find_lit_at(v: &Vec<char>, p: &Vec<char>, i: usize) -> (r: usize)
    requires
        i <= v@.len(),
        p@.len() >= 1,
    ensures
        r == find_lit(v@, p@, i as int),
        r <= v@.len(),
{
    let n = v.len();
    let m = p.len();
    if m > n {
        return n;
    }
    let mut j = i;
    while j <= n - m
        invariant
            i <= j,
            1 <= m <= n == v@.len(),
            j <= n,
            m == p@.len(),
            find_lit(v@, p@, i as int) == find_lit(v@, p@, j as int),
        decreases n - j,
    {
        if range_eq(v, j, p) {
            return j;
        }
        j = j + 1;
    }
    n
}

fn normalize_bright_chars(v: &Vec<char>) -> (r: Vec<char>)
    ensures
        r@ == normalize_bright(v@),
{
    let pat = chars_of_str("bright_");
    let rep = chars_of_str("bright ");
    proof {
        reveal_strlit("bright_");
        reveal_strlit("bright ");
    }
    let k = find_lit_at(v, &pat, 0);
    if k >= v.len() {
        subvec(v, 0, v.len())
    } else {
        proof {
            assert(find_lit(v@, pat@, 0) + pat@.len() <= v@.len() || find_lit(v@, pat@, 0)
                == v@.len()) by {
                lemma_find_lit_fits(v@, pat@, 0);
            }
        }
        let mut out = subvec(v, 0, k);
        crate::text::append_chars(&mut out, &rep);
        let tail = subvec(v, k + 7, v.len());
        crate::text::append_chars(&mut out, &tail);
        proof {
            assert(out@ =~= normalize_bright(v@));
        }
        out
    }
}

/// Where `find_lit` finds `pat`, the whole pattern fits.
proof fn lemma_find_lit_fits(s: Seq<char>, pat: Seq<char>, i: int)
    requires
        0 <= i <= s.len(),
        pat.len() >= 1,
    ensures
        find_lit(s, pat, i) == s.len() || find_lit(s, pat, i) + pat.len() <= s.len(),
        i <= find_lit(s, pat, i),
    decreases s.len() - i,
{
    if i >= s.len() || i + pat.len() > s.len() {
    } else if s.subrange(i, i + pat.len() as int) == pat {
    } else {
        lemma_find_lit_fits(s, pat, i + 1);
    }
}

fn all_hex_from1(v: &Vec<char>) -> (r: bool)
    requires
        v@.len() >= 1,
    ensures
        r == all_hex(v@, 1),
{
    let n = v.len();
    let mut i: usize = 1;
    while i < n
        invariant
            1 <= i <= n == v@.len(),
            forall|j: int| 1 <= j < i ==> is_hex_digit(v@[j]),
        decreases n - i,
    {
        let c = v[i];
        let ok = (('0' as u32 <= c as u32) && (c as u32 <= '9' as u32)) || (('a' as u32 <= c
            as u32) && (c as u32 <= 'f' as u32));
        if !ok {
            proof {
                assert(!is_hex_digit(v@[i as int]));
            }
            return false;
        }
        i = i + 1;
    }
    true
}

fn is_color_name_chars(v: &Vec<char>) -> (r: bool)
    ensures
        r == is_color_name(v@),
{
    if chars_eq_str(v, "black") || chars_eq_str(v, "red") || chars_eq_str(v, "green")
        || chars_eq_str(v, "yellow") || chars_eq_str(v, "blue") || chars_eq_str(v, "magenta")
        || chars_eq_str(v, "purple") || chars_eq_str(v, "cyan") || chars_eq_str(v, "white")
        || chars_eq_str(v, "bright black") || chars_eq_str(v, "bright red") || chars_eq_str(
        v,
        "bright green",
    ) || chars_eq_str(v, "bright yellow") || chars_eq_str(v, "bright blue") || chars_eq_str(
        v,
        "bright magenta",
    ) || chars_eq_str(v, "bright cyan") || chars_eq_str(v, "bright white") {
        return true;
    }
    if (v.len() == 4 || v.len() == 7) && v[0] == '#' {
        all_hex_from1(v)
    } else {
        false
    }
}

fn classify_piece(piece: &Vec<char>) -> (r: StyleTok)
    ensures
        r.deep_view() == classify(piece@),
{
    let trimmed = trim_chars(piece);
    let w = normalize_bright_chars(&trimmed);
    if chars_eq_str(&w, "bold") {
        StyleTok::Bold
    } else if chars_eq_str(&w, "underline") {
        StyleTok::Underline
    } else if chars_eq_str(&w, "italic") {
        StyleTok::Italic
    } else if chars_eq_str(&w, "dimmed") {
        StyleTok::Dimmed
    } else if chars_eq_str(&w, "reversed") {
        StyleTok::Reversed
    } else if chars_eq_str(&w, "blink") {
        StyleTok::Blink
    } else if chars_eq_str(&w, "hidden") {
        StyleTok::Hidden
    } else if chars_eq_str(&w, "strikethrough") {
        StyleTok::Strikethrough
    } else {
        let on = chars_of_str("on_");
        proof {
            reveal_strlit("on_");
        }
        if w.len() >= 3 && range_eq(&w, 0, &on) {
            let name = ascii_lower_chars(&subvec(&w, 3, w.len()));
            if is_color_name_chars(&name) {
                StyleTok::Bg(name)
            } else {
                StyleTok::Skip
            }
        } else {
            let lw = ascii_lower_chars(&w);
            if is_color_name_chars(&lw) {
                StyleTok::Fg(lw)
            } else {
                StyleTok::Skip
            }
        }
    }
}

fn find_comma_at(v: &Vec<char>, i: usize) -> (r: usize)
    requires
        i <= v@.len(),
    ensures
        r == find_comma(v@, i as int),
        i <= r <= v@.len(),
{
    let n = v.len();
    let mut j = i;
    while j < n
        invariant
            i <= j <= n == v@.len(),
            find_comma(v@, i as int) == find_comma(v@, j as int),
        decreases n - j,
    {
        if v[j] == ',' {
            return j;
        }
        j = j + 1;
    }
    n
}

fn split_commas_chars(v: &Vec<char>) -> (r: Vec<Vec<char>>)
    ensures
        chars_views(r@) == split_commas(v@),
    decreases v@.len(),
{
    let k = find_comma_at(v, 0);
    if k >= v.len() {
        let mut r: Vec<Vec<char>> = Vec::new();
        r.push(subvec(v, 0, v.len()));
        proof {
            assert(v@.subrange(0, v@.len() as int) =~= v@);
            assert(chars_views(r@) =~= split_commas(v@));
        }
        r
    } else {
        let head = subvec(v, 0, k);
        let tail = subvec(v, k + 1, v.len());
        let mut r: Vec<Vec<char>> = Vec::new();
        r.push(head);
        let rest = split_commas_chars(&tail);
        let m = rest.len();
        let mut i: usize = 0;
        while i < m
            invariant
                m == rest@.len(),
                i <= m,
                r@.len() == i + 1,
                r@[0]@ == v@.subrange(0, find_comma(v@, 0)),
                chars_views(rest@) == split_commas(tail@),
                tail@ == v@.subrange(find_comma(v@, 0) + 1, v@.len() as int),
                forall|j: int| 0 <= j < i ==> r@[j + 1]@ == split_commas(tail@)[j],
            decreases m - i,
        {
            let piece = subvec(&rest[i], 0, rest[i].len());
            proof {
                assert(piece@ =~= chars_views(rest@)[i as int]);
                assert(chars_views(rest@)[i as int] == split_commas(tail@)[i as int]);
            }
            r.push(piece);
            i = i + 1;
        }
        proof {
            assert(chars_views(r@) =~= seq![v@.subrange(0, find_comma(v@, 0))] + split_commas(
                tail@,
            ));
        }
        r
    }
}

/// The style tokens of a style list, as `style_tokens` says.
pub fn style_tokens_chars(v: &Vec<char>) -> (r: Vec<StyleTok>)
    ensures
        r.deep_view() == style_tokens(v@),
{
    let pieces = split_commas_chars(v);
    let n = pieces.len();
    let mut r: Vec<StyleTok> = Vec::new();
    let mut i: usize = 0;
    while i < n
        invariant
            n == pieces@.len(),
            chars_views(pieces@) == split_commas(v@),
            i <= n,
            r@.len() == i,
            forall|j: int| 0 <= j < i ==> r@[j].deep_view() == style_tokens(v@)[j],
        decreases n - i,
    {
        let tok = classify_piece(&pieces[i]);
        proof {
            assert(chars_views(pieces@)[i as int] == pieces@[i as int]@);
            assert(style_tokens(v@)[i as int] == classify(split_commas(v@)[i as int]));
        }
        r.push(tok);
        i = i + 1;
    }
    proof {
        assert(r.deep_view() =~= style_tokens(v@));
    }
    r
}


/// The net decoration a token list asks for: each attribute is a flag (so
/// attribute tokens are independent and commute), and the foreground and
/// background colours keep the last assignment.
pub ghost struct GPlan {
    pub bold: bool,
    pub underline: bool,
    pub italic: bool,
    pub dimmed: bool,
    pub reversed: bool,
    pub blink: bool,
    pub hidden: bool,
    pub strikethrough: bool,
    pub fg: Option<Seq<char>>,
    pub bg: Option<Seq<char>>,
}

/// The plan that asks for nothing.
pub open spec fn empty_plan() -> GPlan {
    GPlan { bold: false, underline: false, italic: false, dimmed: false, reversed: false, blink: false, hidden: false, strikethrough: false, fg: None, bg: None }
}

/// One token folded into a plan.
pub open spec fn plan_add(p: GPlan, t: GTok) -> GPlan {
    match t {
        GTok::Bold => GPlan { bold: true, underline: p.underline, italic: p.italic, dimmed: p.dimmed, reversed: p.reversed, blink: p.blink, hidden: p.hidden, strikethrough: p.strikethrough, fg: p.fg, bg: p.bg },
        GTok::Underline => GPlan { bold: p.bold, underline: true, italic: p.italic, dimmed: p.dimmed, reversed: p.reversed, blink: p.blink, hidden: p.hidden, strikethrough: p.strikethrough, fg: p.fg, bg: p.bg },
        GTok::Italic => GPlan { bold: p.bold, underline: p.underline, italic: true, dimmed: p.dimmed, reversed: p.reversed, blink: p.blink, hidden: p.hidden, strikethrough: p.strikethrough, fg: p.fg, bg: p.bg },
        GTok::Dimmed => GPlan { bold: p.bold, underline: p.underline, italic: p.italic, dimmed: true, reversed: p.reversed, blink: p.blink, hidden: p.hidden, strikethrough: p.strikethrough, fg: p.fg, bg: p.bg },
        GTok::Reversed => GPlan { bold: p.bold, underline: p.underline, italic: p.italic, dimmed: p.dimmed, reversed: true, blink: p.blink, hidden: p.hidden, strikethrough: p.strikethrough, fg: p.fg, bg: p.bg },
        GTok::Blink => GPlan { bold: p.bold, underline: p.underline, italic: p.italic, dimmed: p.dimmed, reversed: p.reversed, blink: true, hidden: p.hidden, strikethrough: p.strikethrough, fg: p.fg, bg: p.bg },
        GTok::Hidden => GPlan { bold: p.bold, underline: p.underline, italic: p.italic, dimmed: p.dimmed, reversed: p.reversed, blink: p.blink, hidden: true, strikethrough: p.strikethrough, fg: p.fg, bg: p.bg },
        GTok::Strikethrough => GPlan { bold: p.bold, underline: p.underline, italic: p.italic, dimmed: p.dimmed, reversed: p.reversed, blink: p.blink, hidden: p.hidden, strikethrough: true, fg: p.fg, bg: p.bg },
        GTok::Fg(n) => GPlan { bold: p.bold, underline: p.underline, italic: p.italic, dimmed: p.dimmed, reversed: p.reversed, blink: p.blink, hidden: p.hidden, strikethrough: p.strikethrough, fg: Some(n), bg: p.bg },
        GTok::Bg(n) => GPlan { bold: p.bold, underline: p.underline, italic: p.italic, dimmed: p.dimmed, reversed: p.reversed, blink: p.blink, hidden: p.hidden, strikethrough: p.strikethrough, fg: p.fg, bg: Some(n) },
        GTok::Skip => p,
    }
}

/// The plan of the first `k` tokens, folded left to right.
pub open spec fn plan_upto(toks: Seq<GTok>, k: int) -> GPlan
    decreases k,
{
    if k <= 0 {
        empty_plan()
    } else {
        plan_add(plan_upto(toks, k - 1), toks[k - 1])
    }
}

/// The net decoration plan of a token list.
pub open spec fn plan_of(toks: Seq<GTok>) -> GPlan {
    plan_upto(toks, toks.len() as int)
}

/// The net decoration of a token list, as executable data.
pub struct StylePlan {
    pub bold: bool,
    pub underline: bool,
    pub italic: bool,
    pub dimmed: bool,
    pub reversed: bool,
    pub blink: bool,
    pub hidden: bool,
    pub strikethrough: bool,
    pub fg: Option<Vec<char>>,
    pub bg: Option<Vec<char>>,
}

/// The model of an executable plan.
pub open spec fn plan_view(p: StylePlan) -> GPlan {
    GPlan {
        bold: p.bold,
        underline: p.underline,
        italic: p.italic,
        dimmed: p.dimmed,
        reversed: p.reversed,
        blink: p.blink,
        hidden: p.hidden,
        strikethrough: p.strikethrough,
        fg: match p.fg {
            Some(v) => Some(v@),
            None => None,
        },
        bg: match p.bg {
            Some(v) => Some(v@),
            None => None,
        },
    }
}

/// The net plan of the tokens, as `plan_of` says.
pub fn build_plan(toks: &Vec<StyleTok>) -> (r: StylePlan)
    ensures
        plan_view(r) == plan_of(toks.deep_view()),
{
    let mut p = StylePlan {
        bold: false,
        underline: false,
        italic: false,
        dimmed: false,
        reversed: false,
        blink: false,
        hidden: false,
        strikethrough: false,
        fg: None,
        bg: None,
    };
    let n = toks.len();
    let mut i: usize = 0;
    while i < n
        invariant
            i <= n == toks@.len(),
            toks.deep_view().len() == n,
            plan_view(p) == plan_upto(toks.deep_view(), i as int),
        decreases n - i,
    {
        proof {
            assert(toks.deep_view()[i as int] == toks@[i as int].deep_view());
        }
        let ghost prev = plan_view(p);
        match &toks[i] {
            StyleTok::Bold => {
                p.bold = true;
                proof {
                    assert(plan_view(p) == plan_add(prev, toks.deep_view()[i as int]));
                }
            },
            StyleTok::Underline => {
                p.underline = true;
                proof {
                    assert(plan_view(p) == plan_add(prev, toks.deep_view()[i as int]));
                }
            },
            StyleTok::Italic => {
                p.italic = true;
                proof {
                    assert(plan_view(p) == plan_add(prev, toks.deep_view()[i as int]));
                }
            },
            StyleTok::Dimmed => {
                p.dimmed = true;
                proof {
                    assert(plan_view(p) == plan_add(prev, toks.deep_view()[i as int]));
                }
            },
            StyleTok::Reversed => {
                p.reversed = true;
                proof {
                    assert(plan_view(p) == plan_add(prev, toks.deep_view()[i as int]));
                }
            },
            StyleTok::Blink => {
                p.blink = true;
                proof {
                    assert(plan_view(p) == plan_add(prev, toks.deep_view()[i as int]));
                }
            },
            StyleTok::Hidden => {
                p.hidden = true;
                proof {
                    assert(plan_view(p) == plan_add(prev, toks.deep_view()[i as int]));
                }
            },
            StyleTok::Strikethrough => {
                p.strikethrough = true;
                proof {
                    assert(plan_view(p) == plan_add(prev, toks.deep_view()[i as int]));
                }
            },
            StyleTok::Fg(name) => {
                p.fg = Some(subvec(name, 0, name.len()));
                proof {
                    assert(name@.subrange(0, name@.len() as int) =~= name@);
                    assert(plan_view(p) == plan_add(prev, toks.deep_view()[i as int]));
                }
            },
            StyleTok::Bg(name) => {
                p.bg = Some(subvec(name, 0, name.len()));
                proof {
                    assert(name@.subrange(0, name@.len() as int) =~= name@);
                    assert(plan_view(p) == plan_add(prev, toks.deep_view()[i as int]));
                }
            },
            StyleTok::Skip => {
                proof {
                    assert(plan_view(p) == plan_add(prev, toks.deep_view()[i as int]));
                }
            },
        }
        i = i + 1;
    }
    p
}

/// The text decorated by the styling backend according to the tokens' net
/// plan: the tokens fold left to right into `plan_of` (attribute tokens are
/// flags; the last foreground and the last background assignment win), and
/// the plan's decorations are requested of the backend. When the plan is
/// empty — every token was unknown — the result is exactly the text; in
/// every outcome the text's characters stand in the result, in order. What
/// the decorations look like depends on the process environment.
pub fn apply_style_chars(text: &Vec<char>, toks: &Vec<StyleTok>) -> (r: String)
    ensures
        plan_of(toks.deep_view()) == empty_plan() ==> r@ == text@,
        is_subseq_of(text@, r@),
{
    let plan = build_plan(toks);
    let copy = subvec(text, 0, text.len());
    proof {
        assert(copy@ =~= text@);
    }
    let mut st = st_new(copy);
    if plan.bold {
        st = st_bold(st);
    }
    if plan.underline {
        st = st_underline(st);
    }
    if plan.italic {
        st = st_italic(st);
    }
    if plan.dimmed {
        st = st_dimmed(st);
    }
    if plan.reversed {
        st = st_reversed(st);
    }
    if plan.blink {
        st = st_blink(st);
    }
    if plan.hidden {
        st = st_hidden(st);
    }
    if plan.strikethrough {
        st = st_strikethrough(st);
    }
    match &plan.fg {
        Some(n) => {
            let ns = string_from_chars(n);
            st = st_fg(st, ns.as_str());
        },
        None => {},
    }
    match &plan.bg {
        Some(n) => {
            let ns = string_from_chars(n);
            st = st_bg(st, ns.as_str());
        },
        None => {},
    }
    proof {
        assert(text_of(st) == text@);
    }
    st_render(&st)
}

/// Whether a token selects a text attribute.
pub open spec fn is_attr_tok(t: GTok) -> bool {
    ||| t is Bold
    ||| t is Underline
    ||| t is Italic
    ||| t is Dimmed
    ||| t is Reversed
    ||| t is Blink
    ||| t is Hidden
    ||| t is Strikethrough
}

proof fn lemma_plan_upto_prefix(t1: Seq<GTok>, t2: Seq<GTok>, k: int)
    requires
        0 <= k <= t1.len(),
        k <= t2.len(),
        forall|j: int| 0 <= j < k ==> t1[j] == t2[j],
    ensures
        plan_upto(t1, k) == plan_upto(t2, k),
    decreases k,
{
    if k > 0 {
        lemma_plan_upto_prefix(t1, t2, k - 1);
    }
}

proof fn lemma_plan_upto_suffix(t1: Seq<GTok>, t2: Seq<GTok>, k0: int, k: int)
    requires
        0 <= k0 <= k <= t1.len(),
        t1.len() == t2.len(),
        plan_upto(t1, k0) == plan_upto(t2, k0),
        forall|j: int| k0 <= j < k ==> t1[j] == t2[j],
    ensures
        plan_upto(t1, k) == plan_upto(t2, k),
    decreases k - k0,
{
    if k > k0 {
        lemma_plan_upto_suffix(t1, t2, k0, k - 1);
    }
}

proof fn lemma_plan_add_attrs_commute(p: GPlan, a: GTok, b: GTok)
    requires
        is_attr_tok(a),
        is_attr_tok(b),
    ensures
        plan_add(plan_add(p, a), b) == plan_add(plan_add(p, b), a),
{
}

/// Attribute tokens are independent and commute: swapping two adjacent
/// attribute tokens leaves the decoration plan unchanged.
#[verifier::rlimit(50)]
pub proof fn lemma_attr_tokens_commute(t1: Seq<GTok>, t2: Seq<GTok>, i: int)
    requires
        0 <= i,
        i + 1 < t1.len(),
        is_attr_tok(t1[i]),
        is_attr_tok(t1[i + 1]),
        t2 == t1.update(i, t1[i + 1]).update(i + 1, t1[i]),
    ensures
        plan_of(t1) == plan_of(t2),
{
    lemma_plan_upto_prefix(t1, t2, i);
    assert(plan_upto(t1, i + 2) == plan_upto(t2, i + 2)) by {
        reveal_with_fuel(plan_upto, 3);
        assert(t2[i] == t1[i + 1] && t2[i + 1] == t1[i]);
        lemma_plan_add_attrs_commute(plan_upto(t1, i), t1[i], t1[i + 1]);
        assert(plan_upto(t1, i + 2) == plan_add(
            plan_add(plan_upto(t1, i), t1[i]),
            t1[i + 1],
        ));
        assert(plan_upto(t2, i + 2) == plan_add(
            plan_add(plan_upto(t2, i), t1[i + 1]),
            t1[i],
        ));
    }
    lemma_plan_upto_suffix(t1, t2, i + 2, t1.len() as int);
}

proof fn lemma_fg_after(toks: Seq<GTok>, i: int, k: int)
    requires
        0 <= i < k <= toks.len(),
        toks[i] is Fg,
        forall|j: int| i < j < k ==> !(toks[j] is Fg),
    ensures
        plan_upto(toks, k).fg == Some(toks[i]->Fg_0),
    decreases k,
{
    if k == i + 1 {
    } else {
        lemma_fg_after(toks, i, k - 1);
    }
}

/// Conflicting foreground assignments: the plan keeps the last one, so the
/// text is styled as if only the last foreground token stood.
pub proof fn lemma_last_fg_wins(toks: Seq<GTok>, i: int)
    requires
        0 <= i < toks.len(),
        toks[i] is Fg,
        forall|j: int| i < j < toks.len() ==> !(toks[j] is Fg),
    ensures
        plan_of(toks).fg == Some(toks[i]->Fg_0),
{
    lemma_fg_after(toks, i, toks.len() as int);
}

/// A token spelled `bright_red` selects the foreground colour named
/// `bright red`: the underscore form is rewritten to the space-separated
/// form the styling vocabulary expects.
pub proof fn lemma_bright_underscore_token()
    ensures
        classify("bright_red"@) == GTok::Fg("bright red"@),
{
    reveal_strlit("bright_red");
    reveal_strlit("bright_");
    reveal_strlit("bright ");
    reveal_strlit("bright red");
    reveal_strlit("bold");
    reveal_strlit("underline");
    reveal_strlit("italic");
    reveal_strlit("dimmed");
    reveal_strlit("reversed");
    reveal_strlit("blink");
    reveal_strlit("hidden");
    reveal_strlit("strikethrough");
    reveal_strlit("on_");
    let t = "bright_red"@;
    assert(t.len() == 10);
    assert(skip_ws(t, 0, 10) == 0);
    assert(ws_back(t, 10) == 10);
    assert(trim_spec(t) =~= t);
    assert(t.subrange(0, 7) =~= "bright_"@);
    assert(find_lit(t, "bright_"@, 0) == 0);
    let w = normalize_bright(t);
    assert(w =~= "bright red"@);
    assert(w =~= t.subrange(0, 0) + "bright "@ + t.subrange(7, 10));
    assert(w.subrange(0, 3) != "on_"@) by {
        assert(w[0] == 'b');
        assert(w.subrange(0, 3)[0] == 'b');
        assert("on_"@[0] == 'o');
    }
    assert(ascii_lower(w) =~= w) by {
        assert forall|i: int| 0 <= i < w.len() implies lower_char(w[i]) == w[i] by {
            assert(!('A' as u32 <= w[i] as u32 && w[i] as u32 <= 'Z' as u32));
        }
    }
    assert(is_color_name(w));
    assert(classify(t) == GTok::Fg(w));
    assert(GTok::Fg(w) == GTok::Fg("bright red"@));
}

} // verus!
