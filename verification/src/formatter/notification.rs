//! Notification formats: how `{Notification::Grouped}` and
//! `{Notification::Single}` render the notifications of a device.
use super::{
    concat_all, concat_written, lemma_concat_all_error, lemma_concat_all_step,
    lemma_concat_written_ok, lemma_concat_written_stop, lemma_take_full, no_text, Chunk, ChunkView,
    FieldFormat, Format, FormatError, FormatErrorView,
};
use crate::config::Config;
use crate::text::{
    chars_eq, chars_less, eq_literal, int_decimal, lemma_seq_less_irreflexive,
    lemma_seq_less_total, lemma_seq_less_transitive, push_char, push_usize_decimal, seq_less,
    string_from_chars, to_chars,
};
use crate::wrapper::notifications::NotificationData;
use vstd::prelude::*;

verus! {

/// The notification fields of a [`super::GlobalFormat`].
#[derive(Debug, Clone, Copy)]
pub enum Notification {
    /// The notifications grouped by application, each group rendered with
    /// [`Config::notification_grouped_format`], groups in alphabetical order
    /// of application names.
    Grouped,
    /// Each notification rendered with [`Config::notification_single_format`].
    Single,
}

/// The fields of a [`NotificationFormat`]. Some are available in grouped or
/// in single notification formats only.
#[derive(Debug, Clone, Copy)]
pub enum NotificationFormatField {
    /// The application name, e.g. `Instagram`.
    AppName,
    /// The icon of the application, see [`Config::app_icons`].
    CustomIcon,
    /// The title of the notification (single only).
    Title,
    /// The text of the notification (single only).
    Content,
    /// The number of notifications of the application (grouped only).
    Count,
    /// The text for the number of notifications of the application, see
    /// [`Config::notifications_count_text`] (grouped only).
    CountText,
}

/// A format for notifications, e.g. `"-{AppName}\n"`.
pub type NotificationFormat = Format<NotificationFormatField>;

impl NotificationFormatField {
    pub open spec fn spec_from_name(s: Seq<char>) -> Option<NotificationFormatField> {
        if s == "AppName"@ {
            Some(NotificationFormatField::AppName)
        } else if s == "CustomIcon"@ {
            Some(NotificationFormatField::CustomIcon)
        } else if s == "Title"@ {
            Some(NotificationFormatField::Title)
        } else if s == "Content"@ {
            Some(NotificationFormatField::Content)
        } else if s == "Count"@ {
            Some(NotificationFormatField::Count)
        } else if s == "CountText"@ {
            Some(NotificationFormatField::CountText)
        } else {
            None
        }
    }

    /// The field spelled `s`.
    pub fn from_name(s: &Vec<char>) -> (r: Option<NotificationFormatField>)
        ensures
            r == Self::spec_from_name(s@),
    {
        if eq_literal(s, "AppName") {
            Some(NotificationFormatField::AppName)
        } else if eq_literal(s, "CustomIcon") {
            Some(NotificationFormatField::CustomIcon)
        } else if eq_literal(s, "Title") {
            Some(NotificationFormatField::Title)
        } else if eq_literal(s, "Content") {
            Some(NotificationFormatField::Content)
        } else if eq_literal(s, "Count") {
            Some(NotificationFormatField::Count)
        } else if eq_literal(s, "CountText") {
            Some(NotificationFormatField::CountText)
        } else {
            None
        }
    }
}

impl FieldFormat for NotificationFormatField {
    open spec fn spec_parse(s: Seq<char>) -> Result<NotificationFormatField, FormatErrorView> {
        match NotificationFormatField::spec_from_name(s) {
            Some(f) => Ok(f),
            None => Err(FormatErrorView::UnknownField(s)),
        }
    }

    fn parse(s: &str) -> (r: Result<NotificationFormatField, FormatError>) {
        let chars = to_chars(s);
        match NotificationFormatField::from_name(&chars) {
            Some(f) => Ok(f),
            None => {
                let name = string_from_chars(&chars, 0, chars.len());
                assert(chars@.subrange(0, chars@.len() as int) =~= chars@);
                Err(FormatError::UnknownField(name))
            },
        }
    }
}

/// The HTML text of one character: markup characters become entities.
pub open spec fn html_escape(c: char) -> Seq<char> {
    if c == '<' {
        seq!['&', 'l', 't', ';']
    } else if c == '>' {
        seq!['&', 'g', 't', ';']
    } else if c == '&' {
        seq!['&', 'a', 'm', 'p', ';']
    } else if c == '"' {
        seq!['&', 'q', 'u', 'o', 't', ';']
    } else if c == '\'' {
        seq!['&', 'a', 'p', 'o', 's', ';']
    } else {
        seq![c]
    }
}

/// `s` with every character escaped by [`html_escape`].
pub open spec fn html_escaped(s: Seq<char>) -> Seq<char>
    decreases s.len(),
{
    if s.len() == 0 {
        Seq::empty()
    } else {
        html_escaped(s.drop_last()) + html_escape(s.last())
    }
}

/// Whether one of the five entities of [`html_escape`] starts at `t[i]`.
pub open spec fn starts_entity(t: Seq<char>, i: int) -> bool {
    ||| i + 4 <= t.len() && t.subrange(i, i + 4) == seq!['&', 'l', 't', ';']
    ||| i + 4 <= t.len() && t.subrange(i, i + 4) == seq!['&', 'g', 't', ';']
    ||| i + 5 <= t.len() && t.subrange(i, i + 5) == seq!['&', 'a', 'm', 'p', ';']
    ||| i + 6 <= t.len() && t.subrange(i, i + 6) == seq!['&', 'q', 'u', 'o', 't', ';']
    ||| i + 6 <= t.len() && t.subrange(i, i + 6) == seq!['&', 'a', 'p', 'o', 's', ';']
}

/// HTML text read back in one pass from left to right: each of the five
/// entities of [`html_escape`] becomes its character, anything else stays.
pub open spec fn html_unescape(t: Seq<char>) -> Seq<char>
    decreases t.len(),
{
    if t.len() == 0 {
        Seq::empty()
    } else if t.len() >= 4 && t.take(4) == seq!['&', 'l', 't', ';'] {
        seq!['<'] + html_unescape(t.skip(4))
    } else if t.len() >= 4 && t.take(4) == seq!['&', 'g', 't', ';'] {
        seq!['>'] + html_unescape(t.skip(4))
    } else if t.len() >= 5 && t.take(5) == seq!['&', 'a', 'm', 'p', ';'] {
        seq!['&'] + html_unescape(t.skip(5))
    } else if t.len() >= 6 && t.take(6) == seq!['&', 'q', 'u', 'o', 't', ';'] {
        seq!['"'] + html_unescape(t.skip(6))
    } else if t.len() >= 6 && t.take(6) == seq!['&', 'a', 'p', 'o', 's', ';'] {
        seq!['\''] + html_unescape(t.skip(6))
    } else {
        seq![t[0]] + html_unescape(t.skip(1))
    }
}

/// Whether `c` is one of the characters that [`html_escape`] replaces.
pub open spec fn is_markup_char(c: char) -> bool {
    c == '<' || c == '>' || c == '&' || c == '"' || c == '\''
}

/// Escaped text holds no markup character: no `<`, `>`, `"` or `'`, and each
/// `&` starts an entity.
pub proof fn lemma_html_escaped_no_markup(s: Seq<char>)
    ensures
        forall|i: int|
            0 <= i < html_escaped(s).len() ==> {
                let c = #[trigger] html_escaped(s)[i];
                c != '<' && c != '>' && c != '"' && c != '\'' && (c == '&' ==> starts_entity(html_escaped(s), i))
            },
    decreases s.len(),
{
    if s.len() > 0 {
        lemma_html_escaped_no_markup(s.drop_last());
        let p = html_escaped(s.drop_last());
        let e = html_escape(s.last());
        assert(html_escaped(s) == p + e);
        assert forall|i: int| 0 <= i < (p + e).len() implies {
            let c = #[trigger] (p + e)[i];
            c != '<' && c != '>' && c != '"' && c != '\'' && (c == '&' ==> starts_entity(p + e, i))
        } by {
            if i >= p.len() {
                assert((p + e)[i] == e[i - p.len()]);
                if (p + e)[i] == '&' {
                    assert(i == p.len());
                    assert((p + e).subrange(i, i + e.len() as int) =~= e);
                }
            } else {
                assert((p + e)[i] == p[i]);
                if p[i] == '&' {
                    assert(starts_entity(p, i));
                    if i + 4 <= p.len() {
                        assert((p + e).subrange(i, i + 4) =~= p.subrange(i, i + 4));
                    }
                    if i + 5 <= p.len() {
                        assert((p + e).subrange(i, i + 5) =~= p.subrange(i, i + 5));
                    }
                    if i + 6 <= p.len() {
                        assert((p + e).subrange(i, i + 6) =~= p.subrange(i, i + 6));
                    }
                }
            }
        }
    }
}

/// Escaping distributes over concatenation.
proof fn lemma_html_escaped_append(a: Seq<char>, b: Seq<char>)
    ensures
        html_escaped(a + b) == html_escaped(a) + html_escaped(b),
    decreases b.len(),
{
    if b.len() == 0 {
        assert(a + b =~= a);
        assert(html_escaped(a) + html_escaped(b) =~= html_escaped(a));
    } else {
        assert((a + b).drop_last() =~= a + b.drop_last());
        assert((a + b).last() == b.last());
        lemma_html_escaped_append(a, b.drop_last());
        assert(html_escaped(a) + html_escaped(b) =~= html_escaped(a) + html_escaped(b.drop_last()) + html_escape(b.last()));
    }
}

/// Reading one escaped character back gives that character.
proof fn lemma_html_unescape_one(c: char, rest: Seq<char>)
    ensures
        html_unescape(html_escape(c) + rest) == seq![c] + html_unescape(rest),
{
    let t = html_escape(c) + rest;
    let k = html_escape(c).len() as int;
    assert(t.take(k) =~= html_escape(c));
    assert(t.skip(k) =~= rest);
    if c != '<' && c != '>' && c != '&' && c != '"' && c != '\'' {
        assert(t[0] == c);
    } else {
        assert(t.take(4) =~= html_escape(c).take(4));
        if k >= 5 {
            assert(t.take(5) =~= html_escape(c).take(5));
        }
        if k >= 6 {
            assert(t.take(6) =~= html_escape(c).take(6));
        }
    }
}

/// Escaping loses nothing: reading the escaped text back in one pass gives
/// the text again, and text without markup characters is left as it is.
pub proof fn lemma_html_escape_round_trip(s: Seq<char>)
    ensures
        html_unescape(html_escaped(s)) == s,
        (forall|j: int| 0 <= j < s.len() ==> !is_markup_char(#[trigger] s[j])) ==> html_escaped(s) == s,
    decreases s.len(),
{
    if s.len() > 0 {
        let rest = s.skip(1);
        assert(s =~= seq![s[0]] + rest);
        lemma_html_escaped_append(seq![s[0]], rest);
        let one = seq![s[0]];
        assert(one.drop_last() =~= Seq::<char>::empty());
        assert(html_escaped(one.drop_last()) == Seq::<char>::empty());
        assert(one.last() == s[0]);
        assert(html_escaped(one) =~= html_escape(s[0]));
        lemma_html_escape_round_trip(rest);
        lemma_html_unescape_one(s[0], html_escaped(rest));
        if forall|j: int| 0 <= j < s.len() ==> !is_markup_char(#[trigger] s[j]) {
            assert(!is_markup_char(s[0]));
            assert forall|j: int| 0 <= j < rest.len() implies !is_markup_char(#[trigger] rest[j]) by {
                assert(rest[j] == s[j + 1]);
            }
        }
    }
}

/// Appends `s` to `f` with `<`, `>`, `&`, `"` and `'` written as HTML entities.
pub fn sanitizate_html_tags(f: &mut String, s: &str)
    ensures
        final(f)@ == old(f)@ + html_escaped(s@),
{
    let ghost start = f@;
    for ch in it: s.chars()
        invariant
            it.seq() == s@,
            f@ == start + html_escaped(s@.take(it.index() as int)),
    {
        let ghost i = it.index() as int;
        assert(s@.take(i + 1).drop_last() =~= s@.take(i));
        assert(s@.take(i + 1).last() == ch);
        if ch == '<' {
            push_char(f, '&');
            push_char(f, 'l');
            push_char(f, 't');
            push_char(f, ';');
        } else if ch == '>' {
            push_char(f, '&');
            push_char(f, 'g');
            push_char(f, 't');
            push_char(f, ';');
        } else if ch == '&' {
            push_char(f, '&');
            push_char(f, 'a');
            push_char(f, 'm');
            push_char(f, 'p');
            push_char(f, ';');
        } else if ch == '"' {
            push_char(f, '&');
            push_char(f, 'q');
            push_char(f, 'u');
            push_char(f, 'o');
            push_char(f, 't');
            push_char(f, ';');
        } else if ch == '\'' {
            push_char(f, '&');
            push_char(f, 'a');
            push_char(f, 'p');
            push_char(f, 'o');
            push_char(f, 's');
            push_char(f, ';');
        } else {
            push_char(f, ch);
        }
        assert(f@ =~= start + html_escaped(s@.take(i + 1)));
    }
    proof {
        lemma_take_full(s@);
    }
}

/// The line break tag of a conversation text.
pub open spec fn line_break_tag() -> Seq<char> {
    seq!['<', 'b', 'r', '/', '>']
}

/// `s` with each `<br/>` replaced by a newline, scanning from the left.
pub open spec fn replace_line_breaks(s: Seq<char>) -> Seq<char>
    decreases s.len(),
{
    if s.len() == 0 {
        Seq::empty()
    } else if s.len() >= 5 && s.take(5) == line_break_tag() {
        seq!['\n'] + replace_line_breaks(s.skip(5))
    } else {
        seq![s[0]] + replace_line_breaks(s.skip(1))
    }
}

/// Text before any `<` passes through unchanged.
proof fn lemma_line_breaks_plain_prefix(x: Seq<char>, t: Seq<char>)
    requires
        forall|j: int| 0 <= j < x.len() ==> #[trigger] x[j] != '<',
    ensures
        replace_line_breaks(x + t) == x + replace_line_breaks(t),
    decreases x.len(),
{
    if x.len() > 0 {
        let s = x + t;
        let x1 = x.skip(1);
        assert(s[0] == x[0]);
        assert(line_break_tag()[0] == '<');
        if s.len() >= 5 {
            assert(s.take(5)[0] == x[0]);
        }
        assert(s.skip(1) =~= x1 + t);
        assert forall|j: int| 0 <= j < x1.len() implies #[trigger] x1[j] != '<' by {
            assert(x1[j] == x[j + 1]);
        }
        lemma_line_breaks_plain_prefix(x1, t);
        assert(x =~= seq![x[0]] + x1);
    }
}

/// A prefix of the replaced text holding no newline and no `<` is a prefix
/// of the original text.
proof fn lemma_line_breaks_plain_output_prefix(t: Seq<char>, k: int)
    requires
        0 <= k <= replace_line_breaks(t).len(),
        forall|j: int| 0 <= j < k ==> #[trigger] replace_line_breaks(t)[j] != '\n' && replace_line_breaks(t)[j] != '<',
    ensures
        k <= t.len(),
        t.take(k) == replace_line_breaks(t).take(k),
    decreases t.len(),
{
    let r = replace_line_breaks(t);
    if k == 0 {
        assert(t.take(0) =~= r.take(0));
    } else if t.len() == 0 {
    } else if t.len() >= 5 && t.take(5) == line_break_tag() {
        assert(r[0] == '\n');
    } else {
        let rest = replace_line_breaks(t.skip(1));
        assert(r == seq![t[0]] + rest);
        assert forall|j: int| 0 <= j < k - 1 implies #[trigger] rest[j] != '\n' && rest[j] != '<' by {
            assert(r[j + 1] == rest[j]);
        }
        lemma_line_breaks_plain_output_prefix(t.skip(1), k - 1);
        assert(t.take(k) =~= r.take(k)) by {
            assert forall|j: int| 0 <= j < k implies #[trigger] t.take(k)[j] == r.take(k)[j] by {
                if j > 0 {
                    assert(t.skip(1).take(k - 1)[j - 1] == rest.take(k - 1)[j - 1]);
                }
            }
        }
    }
}

/// The replaced text never holds a `<br/>` tag.
proof fn lemma_line_breaks_none_left(s: Seq<char>)
    ensures
        forall|i: int| 0 <= i && i + 5 <= replace_line_breaks(s).len() ==> #[trigger] replace_line_breaks(s).subrange(i, i + 5) != line_break_tag(),
    decreases s.len(),
{
    let r = replace_line_breaks(s);
    if s.len() > 0 {
        let is_tag = s.len() >= 5 && s.take(5) == line_break_tag();
        let rest_in = if is_tag { s.skip(5) } else { s.skip(1) };
        let rest = replace_line_breaks(rest_in);
        lemma_line_breaks_none_left(rest_in);
        let head = if is_tag { '\n' } else { s[0] };
        assert(r == seq![head] + rest);
        assert forall|i: int| 0 <= i && i + 5 <= r.len() implies #[trigger] r.subrange(i, i + 5) != line_break_tag() by {
            if i > 0 {
                let i1 = i - 1;
                assert(r.subrange(i, i + 5) =~= rest.subrange(i1, i1 + 5));
                assert(rest.subrange(i1, i1 + 5) != line_break_tag());
            } else if r.subrange(0, 5) == line_break_tag() {
                assert(r.subrange(0, 5)[0] == head);
                assert(head == '<');
                assert(!is_tag);
                assert forall|j: int| 0 <= j < 4 implies #[trigger] rest[j] != '\n' && rest[j] != '<' by {
                    assert(rest[j] == r.subrange(0, 5)[j + 1]);
                }
                lemma_line_breaks_plain_output_prefix(rest_in, 4);
                assert(s.take(5) =~= line_break_tag()) by {
                    assert forall|j: int| 0 <= j < 5 implies #[trigger] s.take(5)[j] == line_break_tag()[j] by {
                        if j > 0 {
                            assert(rest_in.take(4)[j - 1] == rest.take(4)[j - 1]);
                            assert(rest[j - 1] == r.subrange(0, 5)[j]);
                        }
                    }
                }
            }
        }
    }
}

/// In a group conversation text every `<br/>` becomes a newline: text
/// without `<` is kept as it is, the text of `x` + `<br/>` + `y` is `x`, a
/// newline, then the text of `y`, and no `<br/>` is left in any text.
pub proof fn lemma_line_breaks_replaced(x: Seq<char>, y: Seq<char>)
    requires
        forall|j: int| 0 <= j < x.len() ==> #[trigger] x[j] != '<',
    ensures
        replace_line_breaks(x) == x,
        replace_line_breaks(x + line_break_tag() + y) == x + seq!['\n'] + replace_line_breaks(y),
        forall|i: int| 0 <= i && i + 5 <= replace_line_breaks(y).len() ==> #[trigger] replace_line_breaks(y).subrange(i, i + 5) != line_break_tag(),
{
    lemma_line_breaks_plain_prefix(x, Seq::empty());
    assert(x + Seq::<char>::empty() =~= x);
    let t = line_break_tag() + y;
    assert(x + line_break_tag() + y =~= x + t);
    lemma_line_breaks_plain_prefix(x, t);
    assert(t.take(5) =~= line_break_tag());
    assert(t.skip(5) =~= y);
    assert(x + replace_line_breaks(t) =~= x + seq!['\n'] + replace_line_breaks(y));
    lemma_line_breaks_none_left(y);
}

/// Appends `s` to `f` with each `<br/>` replaced by a newline.
pub fn push_replacing_line_breaks(f: &mut String, s: &str)
    ensures
        final(f)@ == old(f)@ + replace_line_breaks(s@),
{
    let chars = to_chars(s);
    let n = chars.len();
    let mut i: usize = 0;
    assert(chars@.skip(0) =~= chars@);
    while i < n
        invariant
            n == chars@.len(),
            i <= n,
            chars@ == s@,
            old(f)@ + replace_line_breaks(s@) == f@ + replace_line_breaks(chars@.skip(i as int)),
        decreases n - i,
    {
        let ghost rest = chars@.skip(i as int);
        if n - i >= 5 && chars[i] == '<' && chars[i + 1] == 'b' && chars[i + 2] == 'r'
            && chars[i + 3] == '/' && chars[i + 4] == '>' {
            assert(rest.take(5) =~= line_break_tag());
            assert(rest.skip(5) =~= chars@.skip(i + 5));
            push_char(f, '\n');
            i = i + 5;
        } else {
            assert(!(rest.len() >= 5 && rest.take(5) == line_break_tag())) by {
                if rest.len() >= 5 && rest.take(5) == line_break_tag() {
                    assert(rest.take(5)[0] == chars@[i as int]);
                    assert(rest.take(5)[1] == chars@[i + 1]);
                    assert(rest.take(5)[2] == chars@[i + 2]);
                    assert(rest.take(5)[3] == chars@[i + 3]);
                    assert(rest.take(5)[4] == chars@[i + 4]);
                }
            }
            assert(rest.skip(1) =~= chars@.skip(i + 1));
            push_char(f, chars[i]);
            i = i + 1;
        }
    }
    assert(chars@.skip(n as int) =~= Seq::<char>::empty());
    assert(f@ =~= old(f)@ + replace_line_breaks(s@));
}

/// The text of the first entry of `m` with the key `k`.
pub open spec fn lookup_by_count(m: Seq<(i64, String)>, k: i64) -> Option<Seq<char>>
    decreases m.len(),
{
    if m.len() == 0 {
        None
    } else if m[0].0 == k {
        Some(m[0].1@)
    } else {
        lookup_by_count(m.drop_first(), k)
    }
}

/// The text of the first entry of `m` with the key `k`.
pub open spec fn lookup_by_name(m: Seq<(String, String)>, k: Seq<char>) -> Option<Seq<char>>
    decreases m.len(),
{
    if m.len() == 0 {
        None
    } else if m[0].0@ == k {
        Some(m[0].1@)
    } else {
        lookup_by_name(m.drop_first(), k)
    }
}

fn find_by_count(m: &Vec<(i64, String)>, k: i64) -> (r: Option<usize>)
    ensures
        match lookup_by_count(m@, k) {
            Some(t) => r matches Some(i) && i < m@.len() && m@[i as int].1@ == t,
            None => r is None,
        },
{
    let mut i: usize = 0;
    assert(m@.skip(0) =~= m@);
    while i < m.len()
        invariant
            i <= m@.len(),
            lookup_by_count(m@, k) == lookup_by_count(m@.skip(i as int), k),
        decreases m.len() - i,
    {
        assert(m@.skip(i as int).drop_first() =~= m@.skip(i + 1));
        if m[i].0 == k {
            return Some(i);
        }
        i = i + 1;
    }
    None
}

fn find_by_name(m: &Vec<(String, String)>, k: &Vec<char>) -> (r: Option<usize>)
    ensures
        match lookup_by_name(m@, k@) {
            Some(t) => r matches Some(i) && i < m@.len() && m@[i as int].1@ == t,
            None => r is None,
        },
{
    let mut i: usize = 0;
    assert(m@.skip(0) =~= m@);
    while i < m.len()
        invariant
            i <= m@.len(),
            lookup_by_name(m@, k@) == lookup_by_name(m@.skip(i as int), k@),
        decreases m.len() - i,
    {
        assert(m@.skip(i as int).drop_first() =~= m@.skip(i + 1));
        let key = to_chars(m[i].0.as_str());
        if chars_eq(&key, k) {
            return Some(i);
        }
        i = i + 1;
    }
    None
}

/// The icon of the application `app_name`: its entry in
/// [`Config::app_icons`], else the entry of the empty name, else `?`.
pub open spec fn spec_custom_icon(app_name: Seq<char>, config: Config) -> Seq<char> {
    match lookup_by_name(config.app_icons@, app_name) {
        Some(t) => t,
        None => match lookup_by_name(config.app_icons@, Seq::empty()) {
            Some(t) => t,
            None => seq!['?'],
        },
    }
}

/// The text for `count` notifications: its entry in
/// [`Config::notifications_count_text`], else the entry of 0, else the number.
pub open spec fn spec_count_text(count: nat, config: Config) -> Seq<char> {
    match lookup_by_count(config.notifications_count_text@, count as i64) {
        Some(t) => t,
        None => match lookup_by_count(config.notifications_count_text@, 0) {
            Some(t) => t,
            None => int_decimal(count as int),
        },
    }
}

proof fn lemma_lookup_by_name_absent(m: Seq<(String, String)>, k: Seq<char>)
    requires
        forall|i: int| 0 <= i < m.len() ==> #[trigger] m[i].0@ != k,
    ensures
        lookup_by_name(m, k) is None,
    decreases m.len(),
{
    if m.len() > 0 {
        assert(m[0].0@ != k);
        assert forall|i: int| 0 <= i < m.drop_first().len() implies #[trigger] m.drop_first()[i].0@ != k by {
            assert(m.drop_first()[i] == m[i + 1]);
        }
        lemma_lookup_by_name_absent(m.drop_first(), k);
    }
}

proof fn lemma_lookup_by_count_absent(m: Seq<(i64, String)>, k: i64)
    requires
        forall|i: int| 0 <= i < m.len() ==> #[trigger] m[i].0 != k,
    ensures
        lookup_by_count(m, k) is None,
    decreases m.len(),
{
    if m.len() > 0 {
        assert(m[0].0 != k);
        assert forall|i: int| 0 <= i < m.drop_first().len() implies #[trigger] m.drop_first()[i].0 != k by {
            assert(m.drop_first()[i] == m[i + 1]);
        }
        lemma_lookup_by_count_absent(m.drop_first(), k);
    }
}

/// The icon of an application is the one configured for its name; without
/// one, the icon configured for the empty name; without that either, `?`.
pub proof fn lemma_custom_icon(config: Config, app_name: Seq<char>)
    requires
        config.wf(),
    ensures
        forall|i: int|
            0 <= i < config.app_icons@.len() && #[trigger] config.app_icons@[i].0@ == app_name ==> spec_custom_icon(
                app_name,
                config,
            ) == config.app_icons@[i].1@,
        (forall|i: int| 0 <= i < config.app_icons@.len() ==> #[trigger] config.app_icons@[i].0@ != app_name) ==> forall|
            j: int,
        |
            0 <= j < config.app_icons@.len() && #[trigger] config.app_icons@[j].0@ == Seq::<char>::empty()
                ==> spec_custom_icon(app_name, config) == config.app_icons@[j].1@,
        (forall|i: int|
            0 <= i < config.app_icons@.len() ==> #[trigger] config.app_icons@[i].0@ != app_name
                && config.app_icons@[i].0@ != Seq::<char>::empty()) ==> spec_custom_icon(app_name, config) == seq!['?'],
{
    let m = config.app_icons@;
    assert forall|i: int| 0 <= i < m.len() && #[trigger] m[i].0@ == app_name implies spec_custom_icon(app_name, config)
        == m[i].1@ by {
        crate::config::lemma_app_icon_lookup(config, i);
    }
    if forall|i: int| 0 <= i < m.len() ==> #[trigger] m[i].0@ != app_name {
        lemma_lookup_by_name_absent(m, app_name);
        assert forall|j: int| 0 <= j < m.len() && #[trigger] m[j].0@ == Seq::<char>::empty() implies spec_custom_icon(
            app_name,
            config,
        ) == m[j].1@ by {
            crate::config::lemma_app_icon_lookup(config, j);
        }
        if forall|i: int| 0 <= i < m.len() ==> #[trigger] m[i].0@ != Seq::<char>::empty() {
            lemma_lookup_by_name_absent(m, Seq::empty());
        }
    }
}

/// The count text of `count` notifications is the text configured for that
/// count; without one, the text configured for 0; without that either, the
/// count in decimal.
pub proof fn lemma_count_text(config: Config, count: nat)
    requires
        config.wf(),
        count <= i64::MAX,
    ensures
        forall|i: int|
            0 <= i < config.notifications_count_text@.len() && #[trigger] config.notifications_count_text@[i].0 == count
                ==> spec_count_text(count, config) == config.notifications_count_text@[i].1@,
        (forall|i: int|
            0 <= i < config.notifications_count_text@.len() ==> #[trigger] config.notifications_count_text@[i].0 != count)
            ==> forall|j: int|
            0 <= j < config.notifications_count_text@.len() && #[trigger] config.notifications_count_text@[j].0 == 0
                ==> spec_count_text(count, config) == config.notifications_count_text@[j].1@,
        (forall|i: int|
            0 <= i < config.notifications_count_text@.len() ==> #[trigger] config.notifications_count_text@[i].0 != count
                && config.notifications_count_text@[i].0 != 0) ==> spec_count_text(count, config) == int_decimal(count as int),
{
    let m = config.notifications_count_text@;
    assert forall|i: int| 0 <= i < m.len() && #[trigger] m[i].0 == count implies spec_count_text(count, config)
        == m[i].1@ by {
        crate::config::lemma_count_text_lookup(config, i);
    }
    if forall|i: int| 0 <= i < m.len() ==> #[trigger] m[i].0 != count {
        lemma_lookup_by_count_absent(m, count as i64);
        assert forall|j: int| 0 <= j < m.len() && #[trigger] m[j].0 == 0 implies spec_count_text(count, config)
            == m[j].1@ by {
            crate::config::lemma_count_text_lookup(config, j);
        }
        if forall|i: int| 0 <= i < m.len() ==> #[trigger] m[i].0 != 0 {
            lemma_lookup_by_count_absent(m, 0);
        }
    }
}

impl Notification {
    /// The icon of the application `app_name`, see [`spec_custom_icon`].
    pub fn get_custom_icon<'a>(app_name: &str, config: &'a Config) -> (r: &'a str)
        ensures
            r@ == spec_custom_icon(app_name@, *config),
    {
        let name = to_chars(app_name);
        match find_by_name(&config.app_icons, &name) {
            Some(i) => config.app_icons[i].1.as_str(),
            None => {
                let empty: Vec<char> = Vec::new();
                assert(empty@ =~= Seq::<char>::empty());
                match find_by_name(&config.app_icons, &empty) {
                    Some(i) => config.app_icons[i].1.as_str(),
                    None => {
                        proof {
                            reveal_strlit("?");
                        }
                        "?"
                    },
                }
            },
        }
    }
}

/// Appends the count text of `count` notifications to `f`.
fn push_count_text(f: &mut String, count: usize, config: &Config)
    ensures
        final(f)@ == old(f)@ + spec_count_text(count as nat, *config),
{
    match find_by_count(&config.notifications_count_text, count as i64) {
        Some(i) => f.append(config.notifications_count_text[i].1.as_str()),
        None => match find_by_count(&config.notifications_count_text, 0) {
            Some(i) => f.append(config.notifications_count_text[i].1.as_str()),
            None => push_usize_decimal(f, count),
        },
    }
}

/// The text of a field of a grouped notification format for the `count`
/// notifications of the application `app_name`.
pub open spec fn spec_grouped_field_text(
    field: NotificationFormatField,
    app_name: Seq<char>,
    count: nat,
    config: Config,
) -> Result<Seq<char>, FormatErrorView> {
    match field {
        NotificationFormatField::AppName => Ok(app_name),
        NotificationFormatField::CustomIcon => Ok(spec_custom_icon(app_name, config)),
        NotificationFormatField::Count => Ok(int_decimal(count as int)),
        NotificationFormatField::CountText => Ok(spec_count_text(count, config)),
        NotificationFormatField::Content => Err(FormatErrorView::NotAvailableInGrouped),
        NotificationFormatField::Title => Err(FormatErrorView::NotAvailableInGrouped),
    }
}

/// The text of a field of a single notification format for `n`.
/// A conversation text is shown with its line break tags as newlines (the
/// phone escapes group conversations); any other text and the title are escaped.
pub open spec fn spec_single_field_text(
    field: NotificationFormatField,
    n: NotificationData,
    config: Config,
) -> Result<Seq<char>, FormatErrorView> {
    match field {
        NotificationFormatField::AppName => Ok(n.app_name@),
        NotificationFormatField::CustomIcon => Ok(spec_custom_icon(n.app_name@, config)),
        NotificationFormatField::Count => Err(FormatErrorView::NotAvailableInSingle),
        NotificationFormatField::CountText => Err(FormatErrorView::NotAvailableInSingle),
        NotificationFormatField::Content => Ok(
            if !n.is_group_conversation {
                html_escaped(n.text@)
            } else {
                replace_line_breaks(n.text@)
            },
        ),
        NotificationFormatField::Title => Ok(html_escaped(n.title@)),
    }
}

impl NotificationFormatField {
    /// Appends the text of this field for the group of `notifications` of the
    /// application `app_name` to `f`.
    pub fn format_grouped(
        &self,
        f: &mut String,
        app_name: &str,
        notifications: &[&NotificationData],
        config: &Config,
    ) -> (r: Result<(), FormatError>)
        ensures
            match spec_grouped_field_text(*self, app_name@, notifications@.len(), *config) {
                Ok(t) => r is Ok && final(f)@ == old(f)@ + t,
                Err(e) => r matches Err(x) && x@ == e && final(f)@ == old(f)@,
            },
    {
        match *self {
            NotificationFormatField::AppName => f.append(app_name),
            NotificationFormatField::CustomIcon => f.append(Notification::get_custom_icon(app_name, config)),
            NotificationFormatField::Count => push_usize_decimal(f, notifications.len()),
            NotificationFormatField::CountText => push_count_text(f, notifications.len(), config),
            NotificationFormatField::Content => return Err(FormatError::NotAvailableInGrouped),
            NotificationFormatField::Title => return Err(FormatError::NotAvailableInGrouped),
        }
        Ok(())
    }

    /// Appends the text of this field for the notification `notification` to `f`.
    pub fn format_single(&self, f: &mut String, notification: &NotificationData, config: &Config) -> (r: Result<(), FormatError>)
        ensures
            match spec_single_field_text(*self, *notification, *config) {
                Ok(t) => r is Ok && final(f)@ == old(f)@ + t,
                Err(e) => r matches Err(x) && x@ == e && final(f)@ == old(f)@,
            },
    {
        match *self {
            NotificationFormatField::AppName => f.append(notification.app_name.as_str()),
            NotificationFormatField::CustomIcon => f.append(
                Notification::get_custom_icon(notification.app_name.as_str(), config),
            ),
            NotificationFormatField::Count => return Err(FormatError::NotAvailableInSingle),
            NotificationFormatField::CountText => return Err(FormatError::NotAvailableInSingle),
            NotificationFormatField::Content => {
                if !notification.is_group_conversation {
                    sanitizate_html_tags(f, notification.text.as_str());
                } else {
                    push_replacing_line_breaks(f, notification.text.as_str());
                }
            },
            NotificationFormatField::Title => sanitizate_html_tags(f, notification.title.as_str()),
        }
        Ok(())
    }
}


/// `sorted` with `n` inserted after every notification whose application
/// name does not sort after that of `n`.
pub open spec fn insert_by_app_name(sorted: Seq<NotificationData>, n: NotificationData) -> Seq<NotificationData>
    decreases sorted.len(),
{
    if sorted.len() == 0 {
        seq![n]
    } else if seq_less(n.app_name@, sorted.last().app_name@) {
        insert_by_app_name(sorted.drop_last(), n).push(sorted.last())
    } else {
        sorted.push(n)
    }
}

/// `ns` sorted by application name, stably: notifications of one application
/// keep their order.
pub open spec fn sort_by_app_name(ns: Seq<NotificationData>) -> Seq<NotificationData>
    decreases ns.len(),
{
    if ns.len() == 0 {
        Seq::empty()
    } else {
        insert_by_app_name(sort_by_app_name(ns.drop_last()), ns.last())
    }
}

/// The notifications of the application `k`.
pub open spec fn of_app(ns: Seq<NotificationData>, k: Seq<char>) -> Seq<NotificationData> {
    ns.filter(app_is(k))
}

/// Whether a notification comes from the application `k`.
pub open spec fn app_is(k: Seq<char>) -> spec_fn(NotificationData) -> bool {
    |n: NotificationData| n.app_name@ == k
}

proof fn lemma_of_app_push(ns: Seq<NotificationData>, n: NotificationData, k: Seq<char>)
    ensures
        of_app(ns.push(n), k) == if n.app_name@ == k {
            of_app(ns, k).push(n)
        } else {
            of_app(ns, k)
        },
{
    reveal(Seq::filter);
    let t = ns.push(n);
    assert(t.drop_last() =~= ns);
    assert(t.last() == n);
}

proof fn lemma_insert_by_app_name_stable(sorted: Seq<NotificationData>, n: NotificationData, k: Seq<char>)
    ensures
        of_app(insert_by_app_name(sorted, n), k) == if n.app_name@ == k {
            of_app(sorted, k).push(n)
        } else {
            of_app(sorted, k)
        },
    decreases sorted.len(),
{
    if sorted.len() == 0 {
        assert(seq![n] =~= Seq::<NotificationData>::empty().push(n));
        lemma_of_app_push(Seq::empty(), n, k);
        assert(of_app(Seq::<NotificationData>::empty(), k) =~= Seq::<NotificationData>::empty());
    } else {
        let init = sorted.drop_last();
        let last = sorted.last();
        assert(sorted =~= init.push(last));
        lemma_of_app_push(init, last, k);
        if seq_less(n.app_name@, last.app_name@) {
            lemma_insert_by_app_name_stable(init, n, k);
            lemma_of_app_push(insert_by_app_name(init, n), last, k);
            if n.app_name@ == k && last.app_name@ == k {
                lemma_seq_less_irreflexive(k);
            }
            lemma_of_app_push(init, n, k);
        } else {
            lemma_of_app_push(sorted, n, k);
        }
    }
}

/// The sort is stable: the notifications of each application come out in
/// the order they came in.
pub proof fn lemma_sort_by_app_name_stable(ns: Seq<NotificationData>, k: Seq<char>)
    ensures
        of_app(sort_by_app_name(ns), k) == of_app(ns, k),
    decreases ns.len(),
{
    if ns.len() > 0 {
        lemma_sort_by_app_name_stable(ns.drop_last(), k);
        lemma_insert_by_app_name_stable(sort_by_app_name(ns.drop_last()), ns.last(), k);
        assert(ns =~= ns.drop_last().push(ns.last()));
        lemma_of_app_push(ns.drop_last(), ns.last(), k);
    } else {
        assert(of_app(ns, k) =~= Seq::<NotificationData>::empty());
    }
}

/// Application names in order: no name sorts before an earlier one.
pub open spec fn sorted_by_app_name(ns: Seq<NotificationData>) -> bool {
    forall|i: int, j: int| 0 <= i < j < ns.len() ==> !seq_less(#[trigger] ns[j].app_name@, #[trigger] ns[i].app_name@)
}

proof fn lemma_insert_by_app_name_at(sorted: Seq<NotificationData>, n: NotificationData, j: int)
    requires
        0 <= j <= sorted.len(),
        forall|t: int| j <= t < sorted.len() ==> seq_less(n.app_name@, #[trigger] sorted[t].app_name@),
        j > 0 ==> !seq_less(n.app_name@, sorted[j - 1].app_name@),
    ensures
        insert_by_app_name(sorted, n) == sorted.insert(j, n),
    decreases sorted.len() - j,
{
    if j < sorted.len() {
        lemma_insert_by_app_name_at(sorted.drop_last(), n, j);
        assert(sorted.drop_last().insert(j, n).push(sorted.last()) =~= sorted.insert(j, n));
    } else if sorted.len() == 0 {
        assert(sorted.insert(j, n) =~= seq![n]);
    } else {
        assert(sorted.push(n) =~= sorted.insert(j, n));
    }
}

/// Inserting keeps the order and adds exactly the inserted notification.
pub proof fn lemma_insert_by_app_name(sorted: Seq<NotificationData>, n: NotificationData)
    requires
        sorted_by_app_name(sorted),
    ensures
        sorted_by_app_name(insert_by_app_name(sorted, n)),
        insert_by_app_name(sorted, n).to_multiset() == sorted.to_multiset().insert(n),
    decreases sorted.len(),
{
    broadcast use vstd::seq_lib::group_to_multiset_ensures;
    if sorted.len() == 0 {
        assert(seq![n] =~= Seq::<NotificationData>::empty().push(n));
    } else if seq_less(n.app_name@, sorted.last().app_name@) {
        let init = sorted.drop_last();
        let last = sorted.last();
        assert(sorted_by_app_name(init));
        lemma_insert_by_app_name(init, n);
        let ins = insert_by_app_name(init, n);
        assert(sorted =~= init.push(last));
        assert forall|i: int, j: int| 0 <= i < j < ins.push(last).len() implies !seq_less(
            #[trigger] ins.push(last)[j].app_name@,
            #[trigger] ins.push(last)[i].app_name@,
        ) by {
            if j == ins.len() {
                let x = ins[i];
                assert(ins.to_multiset().count(x) > 0);
                assert(init.to_multiset().insert(n).count(x) > 0);
                if x == n {
                    lemma_seq_less_total(n.app_name@, last.app_name@);
                } else {
                    assert(init.to_multiset().count(x) > 0);
                    let k = choose|k: int| 0 <= k < init.len() && init[k] == x;
                    assert(sorted[k] == x);
                    assert(!seq_less(sorted[sorted.len() - 1].app_name@, sorted[k].app_name@));
                }
            }
        }
    } else {
        assert forall|i: int, j: int| 0 <= i < j < sorted.push(n).len() implies !seq_less(
            #[trigger] sorted.push(n)[j].app_name@,
            #[trigger] sorted.push(n)[i].app_name@,
        ) by {
            if j == sorted.len() {
                if i < sorted.len() - 1 {
                    assert(!seq_less(sorted[sorted.len() - 1].app_name@, sorted[i].app_name@));
                    lemma_seq_less_total(sorted[i].app_name@, sorted[sorted.len() - 1].app_name@);
                    if seq_less(n.app_name@, sorted[i].app_name@) {
                        lemma_seq_less_total(n.app_name@, sorted[sorted.len() - 1].app_name@);
                        if sorted[i].app_name@ == sorted[sorted.len() - 1].app_name@ {
                        } else {
                            lemma_seq_less_transitive(
                                n.app_name@,
                                sorted[i].app_name@,
                                sorted[sorted.len() - 1].app_name@,
                            );
                        }
                    }
                }
            }
        }
    }
}

/// Sorting yields the notifications in order of application names, each
/// notification as often as before.
pub proof fn lemma_sort_by_app_name(ns: Seq<NotificationData>)
    ensures
        sorted_by_app_name(sort_by_app_name(ns)),
        sort_by_app_name(ns).to_multiset() == ns.to_multiset(),
    decreases ns.len(),
{
    broadcast use vstd::seq_lib::group_to_multiset_ensures;
    if ns.len() > 0 {
        lemma_sort_by_app_name(ns.drop_last());
        lemma_insert_by_app_name(sort_by_app_name(ns.drop_last()), ns.last());
        assert(ns =~= ns.drop_last().push(ns.last()));
    }
}

fn app_name_less(a: &NotificationData, b: &NotificationData) -> (r: bool)
    ensures
        r == seq_less(a.app_name@, b.app_name@),
{
    let x = to_chars(a.app_name.as_str());
    let y = to_chars(b.app_name.as_str());
    chars_less(&x, &y)
}

/// The notifications sorted by application name, see [`sort_by_app_name`].
pub fn sort_notifications(notifications: Vec<NotificationData>) -> (r: Vec<NotificationData>)
    ensures
        r@ == sort_by_app_name(notifications@),
{
    let mut out: Vec<NotificationData> = Vec::new();
    let ghost all = notifications@;
    assert(all.take(0) =~= Seq::<NotificationData>::empty());
    for n in it: notifications.into_iter()
        invariant
            it.seq() == all,
            out@ == sort_by_app_name(all.take(it.index() as int)),
    {
        let ghost i = it.index() as int;
        assert(all.take(i + 1).drop_last() =~= all.take(i));
        assert(all.take(i + 1).last() == n);
        proof {
            lemma_sort_by_app_name(all.take(i));
        }
        let mut j = out.len();
        while j > 0 && app_name_less(&n, &out[j - 1])
            invariant
                j <= out@.len(),
                forall|t: int| j <= t < out@.len() ==> seq_less(n.app_name@, #[trigger] out@[t].app_name@),
            decreases j,
        {
            j = j - 1;
        }
        proof {
            lemma_insert_by_app_name_at(out@, n, j as int);
        }
        out.insert(j, n);
    }
    proof {
        lemma_take_full(all);
    }
    out
}

/// `keys` with `k` added where it sorts, unless it is there already.
pub open spec fn insert_key(keys: Seq<Seq<char>>, k: Seq<char>) -> Seq<Seq<char>>
    decreases keys.len(),
{
    if keys.len() == 0 {
        seq![k]
    } else if keys.last() == k {
        keys
    } else if seq_less(keys.last(), k) {
        keys.push(k)
    } else {
        insert_key(keys.drop_last(), k).push(keys.last())
    }
}

/// The distinct names of `names`, in alphabetical order.
pub open spec fn group_keys(names: Seq<Seq<char>>) -> Seq<Seq<char>>
    decreases names.len(),
{
    if names.len() == 0 {
        Seq::empty()
    } else {
        insert_key(group_keys(names.drop_last()), names.last())
    }
}

/// The application names of `ns`, in order.
pub open spec fn app_names(ns: Seq<NotificationData>) -> Seq<Seq<char>> {
    ns.map_values(|n: NotificationData| n.app_name@)
}

/// How many notifications of `ns` come from the application `name`.
pub open spec fn count_app(ns: Seq<NotificationData>, name: Seq<char>) -> nat
    decreases ns.len(),
{
    if ns.len() == 0 {
        0
    } else {
        count_app(ns.drop_last(), name) + if ns.last().app_name@ == name {
            1nat
        } else {
            0nat
        }
    }
}

/// Strictly ascending: each key sorts before every later one.
pub open spec fn strictly_sorted(keys: Seq<Seq<char>>) -> bool {
    forall|i: int, j: int| 0 <= i < j < keys.len() ==> seq_less(#[trigger] keys[i], #[trigger] keys[j])
}

proof fn lemma_insert_key_at(keys: Seq<Seq<char>>, k: Seq<char>, j: int)
    requires
        0 <= j <= keys.len(),
        forall|t: int| j <= t < keys.len() ==> seq_less(k, #[trigger] keys[t]),
        j > 0 ==> !seq_less(k, keys[j - 1]),
    ensures
        insert_key(keys, k) == if j > 0 && keys[j - 1] == k {
            keys
        } else {
            keys.insert(j, k)
        },
    decreases keys.len() - j,
{
    if j < keys.len() {
        lemma_seq_less_irreflexive(k);
        lemma_seq_less_total(k, keys.last());
        lemma_insert_key_at(keys.drop_last(), k, j);
        if j > 0 && keys[j - 1] == k {
            assert(keys.drop_last().push(keys.last()) =~= keys);
        } else {
            assert(keys.drop_last().insert(j, k).push(keys.last()) =~= keys.insert(j, k));
        }
    } else if keys.len() == 0 {
        assert(keys.insert(j, k) =~= seq![k]);
    } else {
        lemma_seq_less_total(k, keys.last());
        if keys.last() != k {
            assert(keys.push(k) =~= keys.insert(j, k));
        }
    }
}

/// Adding a key keeps the keys strictly ascending and adds exactly that key.
pub proof fn lemma_insert_key(keys: Seq<Seq<char>>, k: Seq<char>)
    requires
        strictly_sorted(keys),
    ensures
        strictly_sorted(insert_key(keys, k)),
        forall|x: Seq<char>| #[trigger] insert_key(keys, k).contains(x) <==> (keys.contains(x) || x == k),
    decreases keys.len(),
{
    if keys.len() == 0 {
        assert(seq![k][0] == k);
    } else if keys.last() == k {
    } else if seq_less(keys.last(), k) {
        assert forall|i: int, j: int| 0 <= i < j < keys.push(k).len() implies seq_less(
            #[trigger] keys.push(k)[i],
            #[trigger] keys.push(k)[j],
        ) by {
            if j == keys.len() && i < keys.len() - 1 {
                lemma_seq_less_transitive(keys[i], keys[keys.len() - 1], k);
            }
        }
        assert forall|x: Seq<char>| #[trigger] keys.push(k).contains(x) <==> (keys.contains(x) || x == k) by {
            if keys.push(k).contains(x) {
                let t = choose|t: int| 0 <= t < keys.push(k).len() && keys.push(k)[t] == x;
                if t < keys.len() {
                    assert(keys[t] == x);
                }
            }
            if keys.contains(x) {
                let t = choose|t: int| 0 <= t < keys.len() && keys[t] == x;
                assert(keys.push(k)[t] == x);
            }
            if x == k {
                assert(keys.push(k)[keys.len() as int] == x);
            }
        }
    } else {
        let init = keys.drop_last();
        let last = keys.last();
        assert(strictly_sorted(init));
        lemma_insert_key(init, k);
        lemma_seq_less_total(last, k);
        let ins = insert_key(init, k);
        assert forall|x: Seq<char>| #[trigger] ins.push(last).contains(x) <==> (keys.contains(x) || x == k) by {
            if ins.push(last).contains(x) {
                let t = choose|t: int| 0 <= t < ins.push(last).len() && ins.push(last)[t] == x;
                if t < ins.len() {
                    assert(ins.contains(x));
                    if init.contains(x) {
                        let u = choose|u: int| 0 <= u < init.len() && init[u] == x;
                        assert(keys[u] == x);
                    }
                } else {
                    assert(keys[keys.len() - 1] == x);
                }
            }
            if keys.contains(x) {
                let t = choose|t: int| 0 <= t < keys.len() && keys[t] == x;
                if t < keys.len() - 1 {
                    assert(init[t] == x);
                    assert(ins.contains(x));
                    let u = choose|u: int| 0 <= u < ins.len() && ins[u] == x;
                    assert(ins.push(last)[u] == x);
                } else {
                    assert(ins.push(last)[ins.len() as int] == x);
                }
            }
            if x == k {
                assert(ins.contains(k));
                let u = choose|u: int| 0 <= u < ins.len() && ins[u] == k;
                assert(ins.push(last)[u] == x);
            }
        }
        assert forall|i: int, j: int| 0 <= i < j < ins.push(last).len() implies seq_less(
            #[trigger] ins.push(last)[i],
            #[trigger] ins.push(last)[j],
        ) by {
            if j == ins.len() {
                let x = ins[i];
                assert(ins.contains(x));
                if x == k {
                } else {
                    assert(init.contains(x));
                    let u = choose|u: int| 0 <= u < init.len() && init[u] == x;
                    assert(keys[u] == x);
                }
            }
        }
    }
}

/// The group keys are the application names, each once, in strictly
/// ascending order.
pub proof fn lemma_group_keys(names: Seq<Seq<char>>)
    ensures
        strictly_sorted(group_keys(names)),
        forall|x: Seq<char>| #[trigger] group_keys(names).contains(x) <==> names.contains(x),
    decreases names.len(),
{
    if names.len() > 0 {
        let init = names.drop_last();
        lemma_group_keys(init);
        lemma_insert_key(group_keys(init), names.last());
        assert forall|x: Seq<char>| #[trigger] group_keys(names).contains(x) <==> names.contains(x) by {
            if names.contains(x) {
                let t = choose|t: int| 0 <= t < names.len() && names[t] == x;
                if t < names.len() - 1 {
                    assert(init[t] == x);
                }
            }
            if init.contains(x) {
                let t = choose|t: int| 0 <= t < init.len() && init[t] == x;
                assert(names[t] == x);
            }
        }
    }
}

/// Renders a grouped chunk for the application `app_name` with `count` notifications.
pub open spec fn grouped_chunk_text(app_name: Seq<char>, count: nat, config: Config) -> spec_fn(
    ChunkView<NotificationFormatField>,
) -> Result<Seq<char>, FormatErrorView> {
    |c: ChunkView<NotificationFormatField>|
        match c {
            ChunkView::Str(s) => Ok(s),
            ChunkView::Field(field) => spec_grouped_field_text(field, app_name, count, config),
        }
}

/// Renders a single chunk for the notification `n`.
pub open spec fn single_chunk_text(n: NotificationData, config: Config) -> spec_fn(
    ChunkView<NotificationFormatField>,
) -> Result<Seq<char>, FormatErrorView> {
    |c: ChunkView<NotificationFormatField>|
        match c {
            ChunkView::Str(s) => Ok(s),
            ChunkView::Field(field) => spec_single_field_text(field, n, config),
        }
}

/// Renders the group of the application `k` among `ns` with the format `fmt`.
pub open spec fn group_text(fmt: Seq<ChunkView<NotificationFormatField>>, ns: Seq<NotificationData>, config: Config) -> spec_fn(Seq<char>) -> Result<Seq<char>, FormatErrorView> {
    |k: Seq<char>| concat_all(fmt, grouped_chunk_text(k, count_app(ns, k), config))
}

/// Renders one notification with the format `fmt`.
pub open spec fn single_text(fmt: Seq<ChunkView<NotificationFormatField>>, config: Config) -> spec_fn(NotificationData) -> Result<Seq<char>, FormatErrorView> {
    |n: NotificationData| concat_all(fmt, single_chunk_text(n, config))
}

/// The text of a notification field for the notifications `ns`: for
/// `Grouped` each application once, in alphabetical order of names; for
/// `Single` each notification in order.
pub open spec fn spec_notification_text(n: Notification, ns: Seq<NotificationData>, config: Config) -> Result<Seq<char>, FormatErrorView> {
    match n {
        Notification::Grouped => match config.notification_grouped_format {
            None => Err(FormatErrorView::GroupedFormatUndefined),
            Some(fmt) => concat_all(group_keys(app_names(ns)), group_text(fmt@, ns, config)),
        },
        Notification::Single => match config.notification_single_format {
            None => Err(FormatErrorView::SingleFormatUndefined),
            Some(fmt) => concat_all(ns, single_text(fmt@, config)),
        },
    }
}

/// The text the group of the application `k` leaves when rendered with `fmt`:
/// its chunks up to the first failing field, which leaves nothing.
pub open spec fn group_written(fmt: Seq<ChunkView<NotificationFormatField>>, ns: Seq<NotificationData>, config: Config) -> spec_fn(Seq<char>) -> Seq<char> {
    |k: Seq<char>| concat_written(fmt, grouped_chunk_text(k, count_app(ns, k), config), no_text())
}

/// The text one notification leaves when rendered with `fmt`: its chunks up
/// to the first failing field, which leaves nothing.
pub open spec fn single_written(fmt: Seq<ChunkView<NotificationFormatField>>, config: Config) -> spec_fn(NotificationData) -> Seq<char> {
    |n: NotificationData| concat_written(fmt, single_chunk_text(n, config), no_text())
}

/// The text a notification field appends for `ns`, whether it succeeds or
/// not: nothing when its format is undefined; else the groups (or
/// notifications) rendered before the first one that fails, followed by the
/// part of that one rendered before its failing field.
pub open spec fn spec_notification_written(n: Notification, ns: Seq<NotificationData>, config: Config) -> Seq<char> {
    match n {
        Notification::Grouped => match config.notification_grouped_format {
            None => Seq::empty(),
            Some(fmt) => concat_written(group_keys(app_names(ns)), group_text(fmt@, ns, config), group_written(fmt@, ns, config)),
        },
        Notification::Single => match config.notification_single_format {
            None => Seq::empty(),
            Some(fmt) => concat_written(ns, single_text(fmt@, config), single_written(fmt@, config)),
        },
    }
}

proof fn lemma_is_prefix(a: Seq<char>, b: Seq<char>)
    ensures
        a.is_prefix_of(a + b),
        forall|c: Seq<char>| #[trigger] (a + b).is_prefix_of(c) ==> a.is_prefix_of(c),
{
    assert((a + b).subrange(0, a.len() as int) =~= a);
    assert forall|c: Seq<char>| #[trigger] (a + b).is_prefix_of(c) implies a.is_prefix_of(c) by {
        assert(c.subrange(0, a.len() as int) =~= (a + b).subrange(0, a.len() as int));
    }
}

fn render_group(
    fmt: &NotificationFormat,
    f: &mut String,
    app_name: &str,
    group: &[&NotificationData],
    config: &Config,
) -> (r: Result<(), FormatError>)
    ensures
        old(f)@.is_prefix_of(final(f)@),
        final(f)@ == old(f)@ + concat_written(fmt@, grouped_chunk_text(app_name@, group@.len(), *config), no_text()),
        match concat_all(fmt@, grouped_chunk_text(app_name@, group@.len(), *config)) {
            Ok(t) => r is Ok && final(f)@ == old(f)@ + t,
            Err(e) => r matches Err(x) && x@ == e,
        },
{
    let chunks = fmt.chunks();
    let ghost cv = fmt@;
    let ghost g = grouped_chunk_text(app_name@, group@.len(), *config);
    let ghost mut acc: Seq<char> = Seq::empty();
    let ghost start = f@;
    let mut i: usize = 0;
    assert(cv.take(0) =~= Seq::<ChunkView<NotificationFormatField>>::empty());
    assert forall|t: int| 0 <= t < cv.len() implies cv[t] == #[trigger] chunks@[t]@ by {
        assert(cv[t] == chunks@.map_values(|c: Chunk<NotificationFormatField>| c@)[t]);
    }
    while i < chunks.len()
        invariant
            i <= chunks@.len(),
            cv.len() == chunks@.len(),
            forall|t: int| 0 <= t < cv.len() ==> cv[t] == #[trigger] chunks@[t]@,
            concat_all(cv.take(i as int), g) == Ok::<_, FormatErrorView>(acc),
            f@ == start + acc,
            start == old(f)@,
            cv == fmt@,
            g == grouped_chunk_text(app_name@, group@.len(), *config),
        decreases chunks.len() - i,
    {
        proof {
            lemma_concat_all_step(cv, g, i as int);
        }
        assert(cv[i as int] == chunks@[i as int]@);
        match &chunks[i] {
            Chunk::Str(s) => {
                assert(cv[i as int] == ChunkView::<NotificationFormatField>::Str(s@));
                f.append(s.as_str());
                proof {
                    acc = acc + s@;
                }
            },
            Chunk::Field(field) => {
                let ghost before = f@;
                let ghost piece = match g(cv[i as int]) {
                    Ok(t) => t,
                    Err(_) => Seq::empty(),
                };
                match field.format_grouped(f, app_name, group, config) {
                    Ok(()) => {
                        proof {
                            assert(f@ =~= before + piece);
                            acc = acc + piece;
                        }
                    },
                    Err(e) => {
                        proof {
                            lemma_concat_all_error(cv, g, i + 1);
                            lemma_concat_written_stop(cv, g, no_text(), i as int, acc);
                            lemma_is_prefix(start, acc);
                            assert(f@ =~= start + (acc + no_text::<ChunkView<NotificationFormatField>>()(cv[i as int])));
                        }
                        return Err(e);
                    },
                }
            },
        }
        assert(f@ =~= start + acc);
        i = i + 1;
    }
    proof {
        lemma_take_full(cv);
        lemma_concat_written_ok(cv, g, no_text());
    }
    Ok(())
}

fn render_single(fmt: &NotificationFormat, f: &mut String, notification: &NotificationData, config: &Config) -> (r: Result<(), FormatError>)
    ensures
        old(f)@.is_prefix_of(final(f)@),
        final(f)@ == old(f)@ + concat_written(fmt@, single_chunk_text(*notification, *config), no_text()),
        match concat_all(fmt@, single_chunk_text(*notification, *config)) {
            Ok(t) => r is Ok && final(f)@ == old(f)@ + t,
            Err(e) => r matches Err(x) && x@ == e,
        },
{
    let chunks = fmt.chunks();
    let ghost cv = fmt@;
    let ghost g = single_chunk_text(*notification, *config);
    let ghost mut acc: Seq<char> = Seq::empty();
    let ghost start = f@;
    let mut i: usize = 0;
    assert(cv.take(0) =~= Seq::<ChunkView<NotificationFormatField>>::empty());
    assert forall|t: int| 0 <= t < cv.len() implies cv[t] == #[trigger] chunks@[t]@ by {
        assert(cv[t] == chunks@.map_values(|c: Chunk<NotificationFormatField>| c@)[t]);
    }
    while i < chunks.len()
        invariant
            i <= chunks@.len(),
            cv.len() == chunks@.len(),
            forall|t: int| 0 <= t < cv.len() ==> cv[t] == #[trigger] chunks@[t]@,
            concat_all(cv.take(i as int), g) == Ok::<_, FormatErrorView>(acc),
            f@ == start + acc,
            start == old(f)@,
            cv == fmt@,
            g == single_chunk_text(*notification, *config),
        decreases chunks.len() - i,
    {
        proof {
            lemma_concat_all_step(cv, g, i as int);
        }
        assert(cv[i as int] == chunks@[i as int]@);
        match &chunks[i] {
            Chunk::Str(s) => {
                assert(cv[i as int] == ChunkView::<NotificationFormatField>::Str(s@));
                f.append(s.as_str());
                proof {
                    acc = acc + s@;
                }
            },
            Chunk::Field(field) => {
                let ghost before = f@;
                let ghost piece = match g(cv[i as int]) {
                    Ok(t) => t,
                    Err(_) => Seq::empty(),
                };
                match field.format_single(f, notification, config) {
                    Ok(()) => {
                        proof {
                            assert(f@ =~= before + piece);
                            acc = acc + piece;
                        }
                    },
                    Err(e) => {
                        proof {
                            lemma_concat_all_error(cv, g, i + 1);
                            lemma_concat_written_stop(cv, g, no_text(), i as int, acc);
                            lemma_is_prefix(start, acc);
                            assert(f@ =~= start + (acc + no_text::<ChunkView<NotificationFormatField>>()(cv[i as int])));
                        }
                        return Err(e);
                    },
                }
            },
        }
        assert(f@ =~= start + acc);
        i = i + 1;
    }
    proof {
        lemma_take_full(cv);
        lemma_concat_written_ok(cv, g, no_text());
    }
    Ok(())
}


fn name_chars(n: &NotificationData) -> (r: Vec<char>)
    ensures
        r@ == n.app_name@,
{
    to_chars(n.app_name.as_str())
}

/// Indices of one notification per application, ordered as [`group_keys`].
fn group_representatives(ns: &[NotificationData]) -> (r: Vec<usize>)
    ensures
        forall|t: int| 0 <= t < r@.len() ==> #[trigger] r@[t] < ns@.len(),
        r@.map_values(|j: usize| ns@[j as int].app_name@) == group_keys(app_names(ns@)),
{
    let mut reps: Vec<usize> = Vec::new();
    let mut i: usize = 0;
    assert(app_names(ns@.take(0)) =~= Seq::<Seq<char>>::empty());
    assert(reps@.map_values(|j: usize| ns@[j as int].app_name@) =~= Seq::<Seq<char>>::empty());
    while i < ns.len()
        invariant
            i <= ns@.len(),
            forall|t: int| 0 <= t < reps@.len() ==> #[trigger] reps@[t] < ns@.len(),
            reps@.map_values(|j: usize| ns@[j as int].app_name@) == group_keys(app_names(ns@.take(i as int))),
        decreases ns.len() - i,
    {
        let ghost keys = reps@.map_values(|j: usize| ns@[j as int].app_name@);
        assert(app_names(ns@.take(i + 1)).drop_last() =~= app_names(ns@.take(i as int)));
        assert(app_names(ns@.take(i + 1)).last() == ns@[i as int].app_name@);
        let k = name_chars(&ns[i]);
        let mut j = reps.len();
        while j > 0 && chars_less(&k, &name_chars(&ns[reps[j - 1]]))
            invariant
                j <= reps@.len(),
                k@ == ns@[i as int].app_name@,
                forall|t: int| 0 <= t < reps@.len() ==> #[trigger] reps@[t] < ns@.len(),
                keys == reps@.map_values(|j: usize| ns@[j as int].app_name@),
                forall|t: int| j <= t < keys.len() ==> seq_less(k@, #[trigger] keys[t]),
            decreases j,
        {
            j = j - 1;
        }
        proof {
            lemma_insert_key_at(keys, k@, j as int);
        }
        if j > 0 && chars_eq(&name_chars(&ns[reps[j - 1]]), &k) {
        } else {
            let ghost old_reps = reps@;
            reps.insert(j, i);
            assert(reps@.map_values(|j: usize| ns@[j as int].app_name@) =~= keys.insert(j as int, k@));
            assert forall|t: int| 0 <= t < reps@.len() implies #[trigger] reps@[t] < ns@.len() by {
                if t < j {
                    assert(reps@[t] == old_reps[t]);
                } else if t > j {
                    assert(reps@[t] == old_reps[t - 1]);
                }
            }
        }
        i = i + 1;
    }
    assert(ns@.take(ns@.len() as int) =~= ns@);
    reps
}

/// The notifications of the application of `ns[rep]`, in order.
fn collect_group<'a>(ns: &'a [NotificationData], rep: usize) -> (g: Vec<&'a NotificationData>)
    requires
        rep < ns@.len(),
    ensures
        g@.len() == count_app(ns@, ns@[rep as int].app_name@),
{
    let key = name_chars(&ns[rep]);
    let mut g: Vec<&NotificationData> = Vec::new();
    let mut j: usize = 0;
    while j < ns.len()
        invariant
            j <= ns@.len(),
            key@ == ns@[rep as int].app_name@,
            g@.len() == count_app(ns@.take(j as int), key@),
        decreases ns.len() - j,
    {
        assert(ns@.take(j + 1).drop_last() =~= ns@.take(j as int));
        if chars_eq(&name_chars(&ns[j]), &key) {
            g.push(&ns[j]);
        }
        j = j + 1;
    }
    assert(ns@.take(ns@.len() as int) =~= ns@);
    g
}

impl Notification {
    /// Appends the text of this field for `notifications` to `f`.
    pub fn format(&self, f: &mut String, notifications: &[NotificationData], config: &Config) -> (r: Result<(), FormatError>)
        ensures
            old(f)@.is_prefix_of(final(f)@),
            final(f)@ == old(f)@ + spec_notification_written(*self, notifications@, *config),
            match spec_notification_text(*self, notifications@, *config) {
                Ok(t) => r is Ok && final(f)@ == old(f)@ + t,
                Err(e) => r matches Err(x) && x@ == e,
            },
    {
        let ghost ns = notifications@;
        let ghost start = f@;
        let ghost mut acc: Seq<char> = Seq::empty();
        match *self {
            Notification::Grouped => {
                let fmt = match &config.notification_grouped_format {
                    Some(fmt) => fmt,
                    None => {
                        assert(f@ =~= old(f)@ + Seq::<char>::empty());
                        return Err(FormatError::GroupedFormatUndefined);
                    },
                };
                let reps = group_representatives(notifications);
                let ghost keys = group_keys(app_names(ns));
                let ghost g = group_text(fmt@, ns, *config);
                let mut k: usize = 0;
                assert(keys.take(0) =~= Seq::<Seq<char>>::empty());
                while k < reps.len()
                    invariant
                        k <= reps@.len(),
                        ns == notifications@,
                        forall|t: int| 0 <= t < reps@.len() ==> #[trigger] reps@[t] < ns.len(),
                        reps@.map_values(|j: usize| ns[j as int].app_name@) == keys,
                        keys == group_keys(app_names(ns)),
                        g == group_text(fmt@, ns, *config),
                        concat_all(keys.take(k as int), g) == Ok::<_, FormatErrorView>(acc),
                        spec_notification_text(*self, ns, *config) == concat_all(keys, g),
                        spec_notification_written(*self, ns, *config) == concat_written(keys, g, group_written(fmt@, ns, *config)),
                        f@ == start + acc,
                        start == old(f)@,
                    decreases reps.len() - k,
                {
                    let rep = reps[k];
                    assert(keys[k as int] == ns[rep as int].app_name@);
                    proof {
                        lemma_concat_all_step(keys, g, k as int);
                    }
                    let group = collect_group(notifications, rep);
                    let ghost before = f@;
                    let ghost expected = g(keys[k as int]);
                    assert(expected == concat_all(
                        fmt@,
                        grouped_chunk_text(keys[k as int], count_app(ns, keys[k as int]), *config),
                    ));
                    match render_group(fmt, f, notifications[rep].app_name.as_str(), group.as_slice(), config) {
                        Ok(()) => {
                            proof {
                                let piece = expected->Ok_0;
                                assert(f@ == before + piece);
                                acc = acc + piece;
                                assert(f@ =~= start + acc);
                            }
                        },
                        Err(e) => {
                            proof {
                                lemma_is_prefix(start, acc);
                                lemma_concat_all_error(keys, g, k + 1);
                                lemma_concat_written_stop(keys, g, group_written(fmt@, ns, *config), k as int, acc);
                                assert(group_written(fmt@, ns, *config)(keys[k as int]) == concat_written(
                                    fmt@,
                                    grouped_chunk_text(keys[k as int], count_app(ns, keys[k as int]), *config),
                                    no_text(),
                                ));
                                assert(f@ == before + concat_written(
                                    fmt@,
                                    grouped_chunk_text(keys[k as int], count_app(ns, keys[k as int]), *config),
                                    no_text(),
                                ));
                                assert(f@ =~= start + (acc + group_written(fmt@, ns, *config)(keys[k as int])));
                            }
                            return Err(e);
                        },
                    }
                    k = k + 1;
                }
                proof {
                    lemma_take_full(keys);
                    lemma_concat_written_ok(keys, g, group_written(fmt@, ns, *config));
                }
            },
            Notification::Single => {
                let fmt = match &config.notification_single_format {
                    Some(fmt) => fmt,
                    None => {
                        assert(f@ =~= old(f)@ + Seq::<char>::empty());
                        return Err(FormatError::SingleFormatUndefined);
                    },
                };
                let ghost g = single_text(fmt@, *config);
                let mut k: usize = 0;
                assert(ns.take(0) =~= Seq::<NotificationData>::empty());
                while k < notifications.len()
                    invariant
                        k <= ns.len(),
                        ns == notifications@,
                        g == single_text(fmt@, *config),
                        concat_all(ns.take(k as int), g) == Ok::<_, FormatErrorView>(acc),
                        spec_notification_text(*self, ns, *config) == concat_all(ns, g),
                        spec_notification_written(*self, ns, *config) == concat_written(ns, g, single_written(fmt@, *config)),
                        f@ == start + acc,
                        start == old(f)@,
                    decreases ns.len() - k,
                {
                    proof {
                        lemma_concat_all_step(ns, g, k as int);
                    }
                    let ghost before = f@;
                    let ghost expected = g(ns[k as int]);
                    assert(expected == concat_all(fmt@, single_chunk_text(ns[k as int], *config)));
                    match render_single(fmt, f, &notifications[k], config) {
                        Ok(()) => {
                            proof {
                                let piece = expected->Ok_0;
                                assert(f@ == before + piece);
                                acc = acc + piece;
                                assert(f@ =~= start + acc);
                            }
                        },
                        Err(e) => {
                            proof {
                                lemma_is_prefix(start, acc);
                                lemma_concat_all_error(ns, g, k + 1);
                                lemma_concat_written_stop(ns, g, single_written(fmt@, *config), k as int, acc);
                                assert(single_written(fmt@, *config)(ns[k as int]) == concat_written(
                                    fmt@,
                                    single_chunk_text(ns[k as int], *config),
                                    no_text(),
                                ));
                                assert(f@ == before + concat_written(fmt@, single_chunk_text(ns[k as int], *config), no_text()));
                                assert(f@ =~= start + (acc + single_written(fmt@, *config)(ns[k as int])));
                            }
                            return Err(e);
                        },
                    }
                    k = k + 1;
                }
                proof {
                    lemma_take_full(ns);
                    lemma_concat_written_ok(ns, g, single_written(fmt@, *config));
                }
            },
        }
        Ok(())
    }

    /// The text of this field for `notifications`.
    pub fn to_string(&self, notifications: &[NotificationData], config: &Config) -> (r: Result<String, FormatError>)
        ensures
            super::text_result_view(r) == spec_notification_text(*self, notifications@, *config),
    {
        let mut s = String::new();
        match self.format(&mut s, notifications, config) {
            Ok(()) => {
                assert(s@ =~= Seq::<char>::empty() + s@);
                Ok(s)
            },
            Err(e) => Err(e),
        }
    }
}


/// Notification fields never ask for data: their errors are format errors only.
pub proof fn lemma_notification_text_error(n: Notification, ns: Seq<NotificationData>, config: Config)
    ensures
        spec_notification_text(n, ns, config) matches Err(e) ==> e != FormatErrorView::BatteryNotLoaded
            && e != FormatErrorView::NotificationsNotLoaded,
{
    if let Err(e) = spec_notification_text(n, ns, config) {
        match n {
            Notification::Grouped => {
                if let Some(fmt) = config.notification_grouped_format {
                    let g = group_text(fmt@, ns, config);
                    let keys = group_keys(app_names(ns));
                    super::lemma_concat_all_error_witness(keys, g, e);
                    let i = choose|i: int| 0 <= i < keys.len() && #[trigger] g(keys[i]) == Err::<Seq<char>, FormatErrorView>(e);
                    let h = grouped_chunk_text(keys[i], count_app(ns, keys[i]), config);
                    super::lemma_concat_all_error_witness(fmt@, h, e);
                }
            },
            Notification::Single => {
                if let Some(fmt) = config.notification_single_format {
                    let g = single_text(fmt@, config);
                    super::lemma_concat_all_error_witness(ns, g, e);
                    let i = choose|i: int| 0 <= i < ns.len() && #[trigger] g(ns[i]) == Err::<Seq<char>, FormatErrorView>(e);
                    let h = single_chunk_text(ns[i], config);
                    super::lemma_concat_all_error_witness(fmt@, h, e);
                }
            },
        }
    }
}


/// The notification counts of the applications `keys`, added up.
pub open spec fn sum_counts(keys: Seq<Seq<char>>, ns: Seq<NotificationData>) -> nat
    decreases keys.len(),
{
    if keys.len() == 0 {
        0
    } else {
        sum_counts(keys.drop_last(), ns) + count_app(ns, keys.last())
    }
}

proof fn lemma_count_app_absent(ns: Seq<NotificationData>, x: Seq<char>)
    requires
        !app_names(ns).contains(x),
    ensures
        count_app(ns, x) == 0,
    decreases ns.len(),
{
    if ns.len() > 0 {
        let init = ns.drop_last();
        if app_names(init).contains(x) {
            let t = choose|t: int| 0 <= t < app_names(init).len() && app_names(init)[t] == x;
            assert(app_names(ns)[t] == x);
        }
        lemma_count_app_absent(init, x);
        assert(app_names(ns)[ns.len() - 1] == ns.last().app_name@);
    }
}

proof fn lemma_sum_counts_push(keys: Seq<Seq<char>>, ns: Seq<NotificationData>, n: NotificationData)
    requires
        strictly_sorted(keys),
    ensures
        sum_counts(keys, ns.push(n)) == sum_counts(keys, ns) + if keys.contains(n.app_name@) {
            1nat
        } else {
            0nat
        },
    decreases keys.len(),
{
    if keys.len() > 0 {
        let init = keys.drop_last();
        assert(strictly_sorted(init));
        lemma_sum_counts_push(init, ns, n);
        assert(ns.push(n).drop_last() =~= ns);
        let x = n.app_name@;
        if init.contains(x) {
            let t = choose|t: int| 0 <= t < init.len() && init[t] == x;
            assert(keys[t] == x);
            assert(seq_less(keys[t], keys[keys.len() - 1]));
            lemma_seq_less_irreflexive(x);
        }
        if keys.contains(x) && keys.last() != x {
            let t = choose|t: int| 0 <= t < keys.len() && keys[t] == x;
            assert(init[t] == x);
        }
        if keys.last() == x {
            assert(keys[keys.len() - 1] == x);
        }
        if init.contains(x) {
            let t = choose|t: int| 0 <= t < init.len() && init[t] == x;
            assert(keys[t] == x);
        }
    }
}

proof fn lemma_sum_counts_insert(keys: Seq<Seq<char>>, x: Seq<char>, ns: Seq<NotificationData>)
    requires
        strictly_sorted(keys),
    ensures
        sum_counts(insert_key(keys, x), ns) == sum_counts(keys, ns) + if keys.contains(x) {
            0nat
        } else {
            count_app(ns, x)
        },
    decreases keys.len(),
{
    if keys.len() == 0 {
        assert(seq![x].drop_last() =~= Seq::<Seq<char>>::empty());
        assert(sum_counts(seq![x], ns) == sum_counts(Seq::<Seq<char>>::empty(), ns) + count_app(ns, x));
    } else if keys.last() == x {
        assert(keys[keys.len() - 1] == x);
    } else if seq_less(keys.last(), x) {
        assert(keys.push(x).drop_last() =~= keys);
        assert(sum_counts(keys.push(x), ns) == sum_counts(keys, ns) + count_app(ns, x));
        if keys.contains(x) {
            let t = choose|t: int| 0 <= t < keys.len() && keys[t] == x;
            if t < keys.len() - 1 {
                lemma_seq_less_transitive(keys[t], keys[keys.len() - 1], x);
            }
            lemma_seq_less_irreflexive(x);
        }
    } else {
        let init = keys.drop_last();
        assert(strictly_sorted(init));
        lemma_sum_counts_insert(init, x, ns);
        let ins = insert_key(init, x);
        assert(ins.push(keys.last()).drop_last() =~= ins);
        assert(insert_key(keys, x) == ins.push(keys.last()));
        assert(sum_counts(insert_key(keys, x), ns) == sum_counts(ins, ns) + count_app(ns, keys.last()));
        assert(sum_counts(keys, ns) == sum_counts(init, ns) + count_app(ns, keys.last()));
        if keys.contains(x) {
            let t = choose|t: int| 0 <= t < keys.len() && keys[t] == x;
            assert(init[t] == x);
        }
        if init.contains(x) {
            let t = choose|t: int| 0 <= t < init.len() && init[t] == x;
            assert(keys[t] == x);
        }
    }
}

/// Every notification is counted in exactly one group: the counts of the
/// groups add up to the number of notifications, and no group is empty.
pub proof fn lemma_group_counts(ns: Seq<NotificationData>)
    ensures
        sum_counts(group_keys(app_names(ns)), ns) == ns.len(),
        forall|i: int|
            0 <= i < group_keys(app_names(ns)).len() ==> count_app(ns, #[trigger] group_keys(app_names(ns))[i]) > 0,
    decreases ns.len(),
{
    lemma_group_keys(app_names(ns));
    if ns.len() > 0 {
        let init = ns.drop_last();
        let n = ns.last();
        let x = n.app_name@;
        lemma_group_counts(init);
        assert(app_names(ns).drop_last() =~= app_names(init));
        assert(app_names(ns).last() == x);
        assert(ns =~= init.push(n));
        let keys = group_keys(app_names(init));
        lemma_group_keys(app_names(init));
        lemma_insert_key(keys, x);
        lemma_sum_counts_insert(keys, x, init);
        lemma_sum_counts_push(insert_key(keys, x), init, n);
        assert(insert_key(keys, x).contains(x));
        if !keys.contains(x) {
            lemma_count_app_absent(init, x);
        }
        assert forall|i: int|
            0 <= i < group_keys(app_names(ns)).len() implies count_app(ns, #[trigger] group_keys(app_names(ns))[i]) > 0 by {
            let k = group_keys(app_names(ns))[i];
            assert(group_keys(app_names(ns)).contains(k));
            assert(app_names(ns).contains(k));
            lemma_count_app_present(ns, k);
        }
    } else {
        assert(group_keys(app_names(ns)) =~= Seq::<Seq<char>>::empty());
    }
}

proof fn lemma_count_app_present(ns: Seq<NotificationData>, x: Seq<char>)
    requires
        app_names(ns).contains(x),
    ensures
        count_app(ns, x) > 0,
    decreases ns.len(),
{
    if ns.len() > 0 {
        let init = ns.drop_last();
        if ns.last().app_name@ != x {
            let t = choose|t: int| 0 <= t < app_names(ns).len() && app_names(ns)[t] == x;
            if t == ns.len() - 1 {
                assert(app_names(ns)[t] == ns.last().app_name@);
            }
            assert(app_names(init)[t] == x);
            lemma_count_app_present(init, x);
        }
    }
}

} // verus!
