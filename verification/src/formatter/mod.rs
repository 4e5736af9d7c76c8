//! Format strings: text with fields between braces, e.g.
//! `"Battery: {Battery::ChargePercent}%"`, parsed into chunks and rendered
//! against a configuration and the data of a device.
use crate::config::Config;
use crate::text::push_char;
use vstd::prelude::*;

pub mod field;
pub mod notification;

pub use field::{Battery, DeviceCategoryDataCache, DeviceInfo, FieldCategory};
pub use notification::{Notification, NotificationFormat, NotificationFormatField};

use field::{spec_field_text, spec_field_written};
use notification::lemma_notification_text_error;

verus! {

/// Why a format could not be parsed or rendered.
///
/// `BatteryNotLoaded` and `NotificationsNotLoaded` are not failures of the
/// format: they ask the caller to load that data of the device into the
/// [`DeviceCategoryDataCache`] and to render again.
#[derive(Debug)]
pub enum FormatError {
    /// A field without `::`; holds the text of the field.
    MissingField(String),
    /// A field whose category is none of `Battery`, `DeviceInfo`, `Notification`.
    UnknownCategory(String),
    /// A field name that its category (or a notification format) does not have.
    UnknownField(String),
    /// `Battery::ChargeTexts` found no text for the range of the charge.
    NoChargeRangeText,
    /// `DeviceInfo::Address` on a device without any reachable address.
    AddressNotFound,
    /// `Notification::Grouped` without a grouped notification format in the config.
    GroupedFormatUndefined,
    /// `Notification::Single` without a single notification format in the config.
    SingleFormatUndefined,
    /// `Title` or `Content` in a grouped notification format.
    NotAvailableInGrouped,
    /// `Count` or `CountText` in a single notification format.
    NotAvailableInSingle,
    /// The battery status of the device is needed and not loaded yet.
    BatteryNotLoaded,
    /// The notifications of the device are needed and not loaded yet.
    NotificationsNotLoaded,
}

/// [`FormatError`] with its texts as character sequences.
pub enum FormatErrorView {
    MissingField(Seq<char>),
    UnknownCategory(Seq<char>),
    UnknownField(Seq<char>),
    NoChargeRangeText,
    AddressNotFound,
    GroupedFormatUndefined,
    SingleFormatUndefined,
    NotAvailableInGrouped,
    NotAvailableInSingle,
    BatteryNotLoaded,
    NotificationsNotLoaded,
}

impl View for FormatError {
    type V = FormatErrorView;

    open spec fn view(&self) -> FormatErrorView {
        match self {
            FormatError::MissingField(s) => FormatErrorView::MissingField(s@),
            FormatError::UnknownCategory(s) => FormatErrorView::UnknownCategory(s@),
            FormatError::UnknownField(s) => FormatErrorView::UnknownField(s@),
            FormatError::NoChargeRangeText => FormatErrorView::NoChargeRangeText,
            FormatError::AddressNotFound => FormatErrorView::AddressNotFound,
            FormatError::GroupedFormatUndefined => FormatErrorView::GroupedFormatUndefined,
            FormatError::SingleFormatUndefined => FormatErrorView::SingleFormatUndefined,
            FormatError::NotAvailableInGrouped => FormatErrorView::NotAvailableInGrouped,
            FormatError::NotAvailableInSingle => FormatErrorView::NotAvailableInSingle,
            FormatError::BatteryNotLoaded => FormatErrorView::BatteryNotLoaded,
            FormatError::NotificationsNotLoaded => FormatErrorView::NotificationsNotLoaded,
        }
    }
}

/// A result whose error is taken by its view.
pub open spec fn result_view<T>(r: Result<T, FormatError>) -> Result<T, FormatErrorView> {
    match r {
        Ok(v) => Ok(v),
        Err(e) => Err(e@),
    }
}

/// A rendered text with its characters as a sequence.
pub open spec fn text_result_view(r: Result<String, FormatError>) -> Result<Seq<char>, FormatErrorView> {
    match r {
        Ok(s) => Ok(s@),
        Err(e) => Err(e@),
    }
}

/// What a field between braces can be: parsed from the text between the braces.
pub trait FieldFormat: Sized {
    /// The field that `s` names, or why it names none.
    spec fn spec_parse(s: Seq<char>) -> Result<Self, FormatErrorView>;

    fn parse(s: &str) -> (r: Result<Self, FormatError>)
        ensures
            result_view(r) == Self::spec_parse(s@),
    ;
}

/// One piece of a format: a field, or text shown as it is.
#[derive(Debug)]
pub enum Chunk<T: FieldFormat> {
    Field(T),
    Str(String),
}

/// [`Chunk`] with its text as a character sequence.
pub enum ChunkView<T> {
    Field(T),
    Str(Seq<char>),
}

impl<T: FieldFormat> View for Chunk<T> {
    type V = ChunkView<T>;

    open spec fn view(&self) -> ChunkView<T> {
        match self {
            Chunk::Field(f) => ChunkView::Field(*f),
            Chunk::Str(s) => ChunkView::Str(s@),
        }
    }
}

/// A string of text with fields surrounded by braces (`{` and `}`).
#[derive(Debug)]
pub struct Format<T: FieldFormat> {
    chunks: Vec<Chunk<T>>,
}

impl<T: FieldFormat> View for Format<T> {
    type V = Seq<ChunkView<T>>;

    closed spec fn view(&self) -> Seq<ChunkView<T>> {
        self.chunks@.map_values(|c: Chunk<T>| c@)
    }
}

impl<T: FieldFormat> Default for Format<T> {
    fn default() -> (r: Self)
        ensures
            r@ == Seq::<ChunkView<T>>::empty(),
    {
        Format::new()
    }
}

impl<T: FieldFormat> std::str::FromStr for Format<T> {
    type Err = FormatError;

    fn from_str(s: &str) -> (r: Result<Self, FormatError>)
        ensures
            match r {
                Ok(f) => spec_parse_format::<T>(s@) == Ok::<_, FormatErrorView>(f@),
                Err(e) => spec_parse_format::<T>(s@) == Err::<Seq<ChunkView<T>>, _>(e@),
            },
    {
        Format::parse(s)
    }
}

/// A format as [`Config::format`] and [`Config::tooltip_format`] hold it,
/// whose fields are `Category::Field`, see [`FieldCategory`].
pub type GlobalFormat = Format<FieldCategory>;

/// Text gathered since the last brace becomes a text chunk, unless it is empty.
pub open spec fn flush_text<T>(chunks: Seq<ChunkView<T>>, buffer: Seq<char>) -> Seq<ChunkView<T>> {
    if buffer.len() > 0 {
        chunks.push(ChunkView::Str(buffer))
    } else {
        chunks
    }
}

/// The parser after one more character: `{` ends the pending text,
/// `}` turns the pending text into a field, any other character is text.
pub open spec fn parse_step<T: FieldFormat>(
    state: Result<(Seq<ChunkView<T>>, Seq<char>), FormatErrorView>,
    c: char,
) -> Result<(Seq<ChunkView<T>>, Seq<char>), FormatErrorView> {
    match state {
        Err(e) => Err(e),
        Ok((chunks, buffer)) => {
            if c == '{' {
                Ok((flush_text(chunks, buffer), Seq::empty()))
            } else if c == '}' {
                match T::spec_parse(buffer) {
                    Ok(f) => Ok((chunks.push(ChunkView::Field(f)), Seq::empty())),
                    Err(e) => Err(e),
                }
            } else {
                Ok((chunks, buffer.push(c)))
            }
        },
    }
}

/// The chunks found and the pending text after reading `s`.
pub open spec fn parse_prefix<T: FieldFormat>(s: Seq<char>) -> Result<
    (Seq<ChunkView<T>>, Seq<char>),
    FormatErrorView,
>
    decreases s.len(),
{
    if s.len() == 0 {
        Ok((Seq::empty(), Seq::empty()))
    } else {
        parse_step(parse_prefix::<T>(s.drop_last()), s.last())
    }
}

/// The chunks of the format `s`.
pub open spec fn spec_parse_format<T: FieldFormat>(s: Seq<char>) -> Result<Seq<ChunkView<T>>, FormatErrorView> {
    match parse_prefix::<T>(s) {
        Ok((chunks, buffer)) => Ok(flush_text(chunks, buffer)),
        Err(e) => Err(e),
    }
}

proof fn lemma_parse_prefix_error<T: FieldFormat>(s: Seq<char>, i: int)
    requires
        0 <= i <= s.len(),
        parse_prefix::<T>(s.take(i)) is Err,
    ensures
        parse_prefix::<T>(s) == parse_prefix::<T>(s.take(i)),
    decreases s.len() - i,
{
    if i < s.len() {
        assert(s.take(i + 1).drop_last() =~= s.take(i));
        lemma_parse_prefix_error::<T>(s, i + 1);
    } else {
        assert(s.take(i) =~= s);
    }
}

/// Concatenation of the texts of `items`, or the first error among them.
pub open spec fn concat_all<A>(
    items: Seq<A>,
    text: spec_fn(A) -> Result<Seq<char>, FormatErrorView>,
) -> Result<Seq<char>, FormatErrorView>
    decreases items.len(),
{
    if items.len() == 0 {
        Ok(Seq::empty())
    } else {
        match concat_all(items.drop_last(), text) {
            Err(e) => Err(e),
            Ok(prefix) => match text(items.last()) {
                Err(e) => Err(e),
                Ok(t) => Ok(prefix + t),
            },
        }
    }
}

/// Once a prefix of the items fails, the whole fails the same way.
pub proof fn lemma_concat_all_error<A>(
    items: Seq<A>,
    text: spec_fn(A) -> Result<Seq<char>, FormatErrorView>,
    i: int,
)
    requires
        0 <= i <= items.len(),
        concat_all(items.take(i), text) is Err,
    ensures
        concat_all(items, text) == concat_all(items.take(i), text),
    decreases items.len() - i,
{
    if i < items.len() {
        assert(items.take(i + 1).drop_last() =~= items.take(i));
        lemma_concat_all_error(items, text, i + 1);
    } else {
        assert(items.take(i) =~= items);
    }
}

/// The text a rendering that stops at the first failing item leaves behind:
/// the texts of the items in order, and, where an item fails, what that item
/// itself left (`partial`) after the texts of the items before it.
pub open spec fn concat_written<A>(
    items: Seq<A>,
    text: spec_fn(A) -> Result<Seq<char>, FormatErrorView>,
    partial: spec_fn(A) -> Seq<char>,
) -> Seq<char>
    decreases items.len(),
{
    if items.len() == 0 {
        Seq::empty()
    } else {
        match concat_all(items.drop_last(), text) {
            Err(_) => concat_written(items.drop_last(), text, partial),
            Ok(prefix) => match text(items.last()) {
                Ok(t) => prefix + t,
                Err(_) => prefix + partial(items.last()),
            },
        }
    }
}

/// What leaves no text.
pub open spec fn no_text<A>() -> spec_fn(A) -> Seq<char> {
    |a: A| Seq::<char>::empty()
}

/// When every item renders, the text left behind is the whole concatenation.
pub proof fn lemma_concat_written_ok<A>(
    items: Seq<A>,
    text: spec_fn(A) -> Result<Seq<char>, FormatErrorView>,
    partial: spec_fn(A) -> Seq<char>,
)
    ensures
        concat_all(items, text) matches Ok(t) ==> concat_written(items, text, partial) == t,
{
}

/// Once a prefix of the items fails, the text left behind is that of the prefix.
pub proof fn lemma_concat_written_error<A>(
    items: Seq<A>,
    text: spec_fn(A) -> Result<Seq<char>, FormatErrorView>,
    partial: spec_fn(A) -> Seq<char>,
    i: int,
)
    requires
        0 <= i <= items.len(),
        concat_all(items.take(i), text) is Err,
    ensures
        concat_written(items, text, partial) == concat_written(items.take(i), text, partial),
    decreases items.len() - i,
{
    if i < items.len() {
        assert(items.take(i + 1).drop_last() =~= items.take(i));
        lemma_concat_written_error(items, text, partial, i + 1);
    } else {
        assert(items.take(i) =~= items);
    }
}

/// The items already rendered stay: when the items before `i` render as
/// `done` and item `i` fails, the text left behind is `done` followed by what
/// item `i` left.
pub proof fn lemma_concat_written_stop<A>(
    items: Seq<A>,
    text: spec_fn(A) -> Result<Seq<char>, FormatErrorView>,
    partial: spec_fn(A) -> Seq<char>,
    i: int,
    done: Seq<char>,
)
    requires
        0 <= i < items.len(),
        concat_all(items.take(i), text) == Ok::<_, FormatErrorView>(done),
        text(items[i]) is Err,
    ensures
        concat_written(items, text, partial) == done + partial(items[i]),
        concat_all(items, text) == text(items[i]),
{
    assert(items.take(i + 1).drop_last() =~= items.take(i));
    assert(items.take(i + 1).last() == items[i]);
    lemma_concat_all_error(items, text, i + 1);
    lemma_concat_written_error(items, text, partial, i + 1);
}

/// One more item extends the concatenation of a prefix.
pub proof fn lemma_concat_all_step<A>(
    items: Seq<A>,
    text: spec_fn(A) -> Result<Seq<char>, FormatErrorView>,
    i: int,
)
    requires
        0 <= i < items.len(),
    ensures
        concat_all(items.take(i + 1), text) == match concat_all(items.take(i), text) {
            Err(e) => Err(e),
            Ok(prefix) => match text(items[i]) {
                Err(e) => Err(e),
                Ok(t) => Ok(prefix + t),
            },
        },
{
    assert(items.take(i + 1).drop_last() =~= items.take(i));
    assert(items.take(i + 1).last() == items[i]);
}

/// The whole is its full prefix.
pub proof fn lemma_take_full<A>(items: Seq<A>)
    ensures
        items.take(items.len() as int) == items,
{
    assert(items.take(items.len() as int) =~= items);
}

impl<T: FieldFormat> Format<T> {
    /// The format with no chunk, which renders as the empty text.
    pub fn new() -> (r: Self)
        ensures
            r@ == Seq::<ChunkView<T>>::empty(),
    {
        let r = Format { chunks: Vec::new() };
        assert(r@ =~= Seq::<ChunkView<T>>::empty());
        r
    }

    /// The chunks of this format, in order.
    pub fn chunks(&self) -> (r: &Vec<Chunk<T>>)
        ensures
            r@.map_values(|c: Chunk<T>| c@) == self@,
    {
        &self.chunks
    }

    /// Splits `format` into text and fields. A `{` ends the text before it;
    /// the text before a `}` is parsed as a field; text at the end is kept.
    pub fn parse(format: &str) -> (r: Result<Self, FormatError>)
        ensures
            match r {
                Ok(f) => spec_parse_format::<T>(format@) == Ok::<_, FormatErrorView>(f@),
                Err(e) => spec_parse_format::<T>(format@) == Err::<Seq<ChunkView<T>>, _>(e@),
            },
    {
        let mut current_buffer = String::new();
        let mut chunks: Vec<Chunk<T>> = Vec::new();
        let ghost s = format@;
        assert(s.take(0) =~= Seq::<char>::empty());
        assert(chunks@.map_values(|c: Chunk<T>| c@) =~= Seq::<ChunkView<T>>::empty());
        for c in it: format.chars()
            invariant
                it.seq() == s,
                s == format@,
                parse_prefix::<T>(s.take(it.index() as int)) == Ok::<_, FormatErrorView>(
                    (chunks@.map_values(|c: Chunk<T>| c@), current_buffer@),
                ),
        {
            let ghost i = it.index() as int;
            let ghost old_chunks = chunks@;
            assert(s.take(i + 1).drop_last() =~= s.take(i));
            assert(s.take(i + 1).last() == c);
            if c == '{' {
                if !current_buffer.as_str().is_empty() {
                    chunks.push(Chunk::Str(current_buffer));
                    current_buffer = String::new();
                    assert(chunks@.map_values(|c: Chunk<T>| c@) =~= old_chunks.map_values(|c: Chunk<T>| c@).push(chunks@.last()@));
                } else {
                    current_buffer = String::new();
                }
            } else if c == '}' {
                let parsed = T::parse(current_buffer.as_str());
                match parsed {
                    Ok(field) => {
                        chunks.push(Chunk::Field(field));
                        current_buffer = String::new();
                        assert(chunks@.map_values(|c: Chunk<T>| c@) =~= old_chunks.map_values(|c: Chunk<T>| c@).push(chunks@.last()@));
                    },
                    Err(e) => {
                        proof {
                            lemma_parse_prefix_error::<T>(s, i + 1);
                        }
                        return Err(e);
                    },
                }
            } else {
                push_char(&mut current_buffer, c);
            }
        }
        proof {
            lemma_take_full(s);
        }
        if !current_buffer.as_str().is_empty() {
            let ghost old_chunks = chunks@;
            chunks.push(Chunk::Str(current_buffer));
            assert(chunks@.map_values(|c: Chunk<T>| c@) =~= old_chunks.map_values(|c: Chunk<T>| c@).push(chunks@.last()@));
        }
        Ok(Format { chunks })
    }
}


/// Renders a chunk of a [`GlobalFormat`]: text as it is, a field by
/// [`spec_field_text`].
pub open spec fn global_chunk_text(config: Config, cache: DeviceCategoryDataCache) -> spec_fn(
    ChunkView<FieldCategory>,
) -> Result<Seq<char>, FormatErrorView> {
    |c: ChunkView<FieldCategory>|
        match c {
            ChunkView::Str(s) => Ok(s),
            ChunkView::Field(field) => spec_field_text(field, config, cache),
        }
}

/// The text of the format `chunks`: its chunks rendered in order.
pub open spec fn spec_render(chunks: Seq<ChunkView<FieldCategory>>, config: Config, cache: DeviceCategoryDataCache) -> Result<Seq<char>, FormatErrorView> {
    concat_all(chunks, global_chunk_text(config, cache))
}

/// The text a chunk of a [`GlobalFormat`] appends, whether it succeeds or
/// not: text as it is, a field by [`spec_field_written`].
pub open spec fn global_chunk_written(config: Config, cache: DeviceCategoryDataCache) -> spec_fn(
    ChunkView<FieldCategory>,
) -> Seq<char> {
    |c: ChunkView<FieldCategory>|
        match c {
            ChunkView::Str(s) => s,
            ChunkView::Field(field) => spec_field_written(field, config, cache),
        }
}

/// The text rendering the format `chunks` appends, whether it succeeds or
/// not: the texts of the chunks before the first failing one, followed by
/// what that chunk left.
pub open spec fn spec_render_written(chunks: Seq<ChunkView<FieldCategory>>, config: Config, cache: DeviceCategoryDataCache) -> Seq<char> {
    concat_written(chunks, global_chunk_text(config, cache), global_chunk_written(config, cache))
}

impl Chunk<FieldCategory> {
    /// Appends the text of this chunk to `f`.
    pub fn format(&self, f: &mut String, config: &Config, cache: &DeviceCategoryDataCache) -> (r: Result<(), FormatError>)
        ensures
            old(f)@.is_prefix_of(final(f)@),
            final(f)@ == old(f)@ + global_chunk_written(*config, *cache)(self@),
            match global_chunk_text(*config, *cache)(self@) {
                Ok(t) => r is Ok && final(f)@ == old(f)@ + t,
                Err(e) => r matches Err(x) && x@ == e,
            },
    {
        match self {
            Chunk::Str(s) => {
                f.append(s.as_str());
                proof {
                    lemma_prefix_of_append(old(f)@, s@);
                }
                Ok(())
            },
            Chunk::Field(field) => field.format_from_device(f, config, cache),
        }
    }

    /// The text of this chunk.
    pub fn to_str(&self, config: &Config, cache: &DeviceCategoryDataCache) -> (r: Result<String, FormatError>)
        ensures
            text_result_view(r) == global_chunk_text(*config, *cache)(self@),
    {
        let mut s = String::new();
        match self.format(&mut s, config, cache) {
            Ok(()) => {
                assert(s@ =~= Seq::<char>::empty() + s@);
                Ok(s)
            },
            Err(e) => Err(e),
        }
    }
}

/// A sequence is a prefix of itself extended.
pub proof fn lemma_prefix_of_append(a: Seq<char>, b: Seq<char>)
    ensures
        a.is_prefix_of(a + b),
        forall|c: Seq<char>| #[trigger] (a + b).is_prefix_of(c) ==> a.is_prefix_of(c),
{
    assert((a + b).subrange(0, a.len() as int) =~= a);
    assert forall|c: Seq<char>| #[trigger] (a + b).is_prefix_of(c) implies a.is_prefix_of(c) by {
        assert(c.subrange(0, a.len() as int) =~= (a + b).subrange(0, a.len() as int));
    }
}

impl Format<FieldCategory> {
    /// Appends the text of this format to `f`.
    pub fn format(&self, f: &mut String, config: &Config, cache: &DeviceCategoryDataCache) -> (r: Result<(), FormatError>)
        ensures
            old(f)@.is_prefix_of(final(f)@),
            final(f)@ == old(f)@ + spec_render_written(self@, *config, *cache),
            match spec_render(self@, *config, *cache) {
                Ok(t) => r is Ok && final(f)@ == old(f)@ + t,
                Err(e) => r matches Err(x) && x@ == e,
            },
    {
        let ghost cv = self@;
        let ghost g = global_chunk_text(*config, *cache);
        let ghost mut acc: Seq<char> = Seq::empty();
        let ghost start = f@;
        let mut i: usize = 0;
        assert(cv.take(0) =~= Seq::<ChunkView<FieldCategory>>::empty());
        assert forall|t: int| 0 <= t < cv.len() implies cv[t] == #[trigger] self.chunks@[t]@ by {
            assert(cv[t] == self.chunks@.map_values(|c: Chunk<FieldCategory>| c@)[t]);
        }
        while i < self.chunks.len()
            invariant
                i <= self.chunks@.len(),
                cv == self@,
                cv.len() == self.chunks@.len(),
                forall|t: int| 0 <= t < cv.len() ==> cv[t] == #[trigger] self.chunks@[t]@,
                g == global_chunk_text(*config, *cache),
                concat_all(cv.take(i as int), g) == Ok::<_, FormatErrorView>(acc),
                f@ == start + acc,
                start == old(f)@,
            decreases self.chunks.len() - i,
        {
            proof {
                lemma_concat_all_step(cv, g, i as int);
            }
            assert(cv[i as int] == self.chunks@[i as int]@);
            let ghost before = f@;
            let ghost expected = g(cv[i as int]);
            match self.chunks[i].format(f, config, cache) {
                Ok(()) => {
                    proof {
                        let piece = expected->Ok_0;
                        acc = acc + piece;
                        assert(f@ =~= start + acc);
                    }
                },
                Err(e) => {
                    proof {
                        lemma_concat_all_error(cv, g, i + 1);
                        lemma_prefix_of_append(start, acc);
                        lemma_concat_written_stop(cv, g, global_chunk_written(*config, *cache), i as int, acc);
                        assert(f@ =~= start + (acc + global_chunk_written(*config, *cache)(cv[i as int])));
                    }
                    return Err(e);
                },
            }
            i = i + 1;
        }
        proof {
            lemma_take_full(cv);
            lemma_prefix_of_append(start, acc);
            lemma_concat_written_ok(cv, g, global_chunk_written(*config, *cache));
        }
        Ok(())
    }

    /// The text of this format.
    pub fn to_string(&self, config: &Config, cache: &DeviceCategoryDataCache) -> (r: Result<String, FormatError>)
        ensures
            text_result_view(r) == spec_render(self@, *config, *cache),
    {
        let mut s = String::new();
        match self.format(&mut s, config, cache) {
            Ok(()) => {
                assert(s@ =~= Seq::<char>::empty() + s@);
                Ok(s)
            },
            Err(e) => Err(e),
        }
    }
}

/// Some item of a failing concatenation fails with the same error.
pub proof fn lemma_concat_all_error_witness<A>(
    items: Seq<A>,
    text: spec_fn(A) -> Result<Seq<char>, FormatErrorView>,
    e: FormatErrorView,
)
    requires
        concat_all(items, text) == Err::<Seq<char>, FormatErrorView>(e),
    ensures
        exists|i: int| 0 <= i < items.len() && #[trigger] text(items[i]) == Err::<Seq<char>, FormatErrorView>(e),
    decreases items.len(),
{
    if items.len() > 0 {
        match concat_all(items.drop_last(), text) {
            Err(_) => {
                lemma_concat_all_error_witness(items.drop_last(), text, e);
                let i = choose|i: int| 0 <= i < items.drop_last().len() && #[trigger] text(items.drop_last()[i]) == Err::<Seq<char>, FormatErrorView>(e);
                assert(items[i] == items.drop_last()[i]);
            },
            Ok(_) => {
                assert(text(items[items.len() - 1]) == Err::<Seq<char>, FormatErrorView>(e));
            },
        }
    }
}

/// Rendering asks for the battery only when it is not loaded, and for the
/// notifications only when they are not loaded. So a cache with both loaded
/// is never asked for more, and loading what was asked for ends that request.
pub proof fn lemma_render_requests_missing_data(
    chunks: Seq<ChunkView<FieldCategory>>,
    config: Config,
    cache: DeviceCategoryDataCache,
)
    ensures
        spec_render(chunks, config, cache) == Err::<Seq<char>, FormatErrorView>(FormatErrorView::BatteryNotLoaded)
            ==> cache.spec_battery() is None,
        spec_render(chunks, config, cache) == Err::<Seq<char>, FormatErrorView>(
            FormatErrorView::NotificationsNotLoaded,
        ) ==> cache.spec_notifications() is None,
{
    let g = global_chunk_text(config, cache);
    if let Err(e) = spec_render(chunks, config, cache) {
        lemma_concat_all_error_witness(chunks, g, e);
        let i = choose|i: int| 0 <= i < chunks.len() && #[trigger] g(chunks[i]) == Err::<Seq<char>, FormatErrorView>(e);
        match chunks[i] {
            ChunkView::Field(FieldCategory::Notification(n)) => {
                if let Some(ns) = cache.spec_notifications() {
                    lemma_notification_text_error(n, ns, config);
                }
            },
            _ => {},
        }
    }
}

/// What the module shows: its text and its tooltip.
#[derive(Debug)]
pub struct OutputFormat {
    pub text: String,
    pub tooltip: Option<String>,
}

/// The text and tooltip shown for the device whose data `cache` holds, or
/// for no device.
pub open spec fn spec_output(cache: Option<DeviceCategoryDataCache>, config: Config) -> Result<
    (Seq<char>, Option<Seq<char>>),
    FormatErrorView,
> {
    let not_found = Ok((config.device_not_found_text@, Some(config.device_not_found_tooltip_text@)));
    match cache {
        None => not_found,
        Some(c) => if !c.spec_device_info().is_reachable {
            not_found
        } else {
            match spec_render(config.format@, config, c) {
                Err(e) => Err(e),
                Ok(text) => match config.tooltip_format {
                    None => Ok((text, None)),
                    Some(tf) => match spec_render(tf@, config, c) {
                        Err(e) => Err(e),
                        Ok(tooltip) => Ok((text, Some(tooltip))),
                    },
                },
            }
        },
    }
}

/// An unreachable device is shown as no device at all: the not-found text
/// with the not-found tooltip. A reachable device is shown as its rendered
/// format, with its rendered tooltip format when the configuration has one.
pub proof fn lemma_output_of_device(cache: DeviceCategoryDataCache, config: Config)
    ensures
        spec_output(None, config) == Ok::<_, FormatErrorView>(
            (config.device_not_found_text@, Some(config.device_not_found_tooltip_text@)),
        ),
        !cache.spec_device_info().is_reachable ==> spec_output(Some(cache), config) == spec_output(None, config),
        cache.spec_device_info().is_reachable ==> match spec_output(Some(cache), config) {
            Ok((text, tooltip)) => spec_render(config.format@, config, cache) == Ok::<_, FormatErrorView>(text)
                && match config.tooltip_format {
                None => tooltip is None,
                Some(tf) => tooltip matches Some(t) && spec_render(tf@, config, cache) == Ok::<_, FormatErrorView>(t),
            },
            Err(e) => spec_render(config.format@, config, cache) == Err::<Seq<char>, _>(e) || (config.tooltip_format matches Some(tf)
                && spec_render(tf@, config, cache) == Err::<Seq<char>, _>(e)),
        },
{
}

/// The output asks only for data that the cache lacks: rendering it again
/// after loading what was asked for cannot ask for the same data again.
pub proof fn lemma_output_requests_missing_data(cache: DeviceCategoryDataCache, config: Config)
    ensures
        spec_output(Some(cache), config) == Err::<(Seq<char>, Option<Seq<char>>), FormatErrorView>(
            FormatErrorView::BatteryNotLoaded,
        ) ==> cache.spec_battery() is None,
        spec_output(Some(cache), config) == Err::<(Seq<char>, Option<Seq<char>>), FormatErrorView>(
            FormatErrorView::NotificationsNotLoaded,
        ) ==> cache.spec_notifications() is None,
{
    lemma_render_requests_missing_data(config.format@, config, cache);
    if let Some(tf) = config.tooltip_format {
        lemma_render_requests_missing_data(tf@, config, cache);
    }
}

impl OutputFormat {
    pub open spec fn spec_view(&self) -> (Seq<char>, Option<Seq<char>>) {
        (
            self.text@,
            match self.tooltip {
                Some(t) => Some(t@),
                None => None,
            },
        )
    }

    /// The texts shown when no reachable device is found.
    pub fn device_not_found(config: &Config) -> (r: Self)
        ensures
            r.spec_view() == (config.device_not_found_text@, Some(config.device_not_found_tooltip_text@)),
    {
        OutputFormat {
            text: config.device_not_found_text.clone(),
            tooltip: Some(config.device_not_found_tooltip_text.clone()),
        }
    }

    /// The texts shown for the device whose data `cache` holds (none: no
    /// device found): the not-found texts unless the device is reachable,
    /// else [`Config::format`] and [`Config::tooltip_format`] rendered.
    pub fn format_output(cache: Option<&DeviceCategoryDataCache>, config: &Config) -> (r: Result<Self, FormatError>)
        ensures
            match spec_output(
                match cache {
                    Some(c) => Some(*c),
                    None => None,
                },
                *config,
            ) {
                Ok(v) => r matches Ok(o) && o.spec_view() == v,
                Err(e) => r matches Err(x) && x@ == e,
            },
    {
        let cache = match cache {
            Some(c) => c,
            None => return Ok(Self::device_not_found(config)),
        };
        let info = cache.get_device_info();
        if !info.is_reachable {
            return Ok(Self::device_not_found(config));
        }
        let text = match config.format.to_string(config, cache) {
            Ok(t) => t,
            Err(e) => return Err(e),
        };
        let tooltip = match &config.tooltip_format {
            Some(tf) => match tf.to_string(config, cache) {
                Ok(t) => Some(t),
                Err(e) => return Err(e),
            },
            None => None,
        };
        Ok(OutputFormat { text, tooltip })
    }
}


/// Text without braces is a format without fields.
pub proof fn lemma_parse_plain_text<T: FieldFormat>(s: Seq<char>)
    requires
        forall|i: int| 0 <= i < s.len() ==> #[trigger] s[i] != '{' && s[i] != '}',
    ensures
        parse_prefix::<T>(s) == Ok::<_, FormatErrorView>((Seq::<ChunkView<T>>::empty(), s)),
        spec_parse_format::<T>(s) == Ok::<_, FormatErrorView>(flush_text(Seq::<ChunkView<T>>::empty(), s)),
    decreases s.len(),
{
    if s.len() > 0 {
        let init = s.drop_last();
        assert forall|i: int| 0 <= i < init.len() implies #[trigger] init[i] != '{' && init[i] != '}' by {
            assert(init[i] == s[i]);
        }
        lemma_parse_plain_text::<T>(init);
        assert(s[s.len() - 1] != '{' && s[s.len() - 1] != '}');
        assert(init.push(s.last()) =~= s);
    } else {
        assert(s =~= Seq::<char>::empty());
    }
}

/// A format without braces renders as its own text, whatever the
/// configuration and the device.
pub proof fn lemma_plain_text_renders_verbatim(s: Seq<char>, config: Config, cache: DeviceCategoryDataCache)
    requires
        forall|i: int| 0 <= i < s.len() ==> #[trigger] s[i] != '{' && s[i] != '}',
    ensures
        spec_parse_format::<FieldCategory>(s) matches Ok(chunks) && spec_render(chunks, config, cache)
            == Ok::<_, FormatErrorView>(s),
{
    lemma_parse_plain_text::<FieldCategory>(s);
    let chunks = flush_text(Seq::<ChunkView<FieldCategory>>::empty(), s);
    if s.len() > 0 {
        assert(chunks.drop_last() =~= Seq::<ChunkView<FieldCategory>>::empty());
        assert(chunks.last() == ChunkView::<FieldCategory>::Str(s));
        assert(global_chunk_text(config, cache)(chunks.last()) == Ok::<_, FormatErrorView>(s));
        assert(Seq::<char>::empty() + s =~= s);
        let g = global_chunk_text(config, cache);
        assert(concat_all(chunks.drop_last(), g) == Ok::<_, FormatErrorView>(Seq::<char>::empty()));
        assert(concat_all(chunks, g) == Ok::<_, FormatErrorView>(Seq::<char>::empty() + s));
    } else {
        assert(s =~= Seq::<char>::empty());
    }
}

} // verus!
