//! Search filters: file-type selections and the decision whether an entry
//! matches a search.

use vstd::prelude::*;
use crate::text::{has_prefix, starts_with, str_equal, copy_str};
use crate::patterns::{escape, ci_is_match, regex_ci_match, regex_escaped, regex_ci_valid, glob_ci_is_match,
    glob_ci_valid, glob_ci_match};

verus! {

/// Where a search looks.
#[derive(Clone, Debug, PartialEq, Eq, Hash)]
pub enum SearchLocation {
    Path(String),
    Recents,
    Trash,
}

/// A kind of file that a search can be limited to.
#[derive(Clone, Copy, Debug, Eq, Hash, PartialEq, Structural)]
pub enum SearchFileType {
    Text,
    Audio,
    Documents,
    Folders,
    Images,
    Pdf,
    Spreadsheets,
    Videos,
}

/// The position of a file type in the set of selected types.
pub open spec fn type_index(ty: SearchFileType) -> u16 {
    match ty {
        SearchFileType::Text => 0,
        SearchFileType::Audio => 1,
        SearchFileType::Documents => 2,
        SearchFileType::Folders => 3,
        SearchFileType::Images => 4,
        SearchFileType::Pdf => 5,
        SearchFileType::Spreadsheets => 6,
        SearchFileType::Videos => 7,
    }
}

/// The bit that stands for a file type.
pub open spec fn type_bit(ty: SearchFileType) -> u16 {
    (1u16 << type_index(ty))
}

impl SearchFileType {
    /// Every file type, in order.
    pub fn all() -> (r: Vec<SearchFileType>)
        ensures
            r@ == seq![
                SearchFileType::Text,
                SearchFileType::Audio,
                SearchFileType::Documents,
                SearchFileType::Folders,
                SearchFileType::Images,
                SearchFileType::Pdf,
                SearchFileType::Spreadsheets,
                SearchFileType::Videos,
            ],
    {
        vec![
            SearchFileType::Text,
            SearchFileType::Audio,
            SearchFileType::Documents,
            SearchFileType::Folders,
            SearchFileType::Images,
            SearchFileType::Pdf,
            SearchFileType::Spreadsheets,
            SearchFileType::Videos,
        ]
    }

    /// The bit that stands for this file type.
    pub fn bit(self) -> (r: u16)
        ensures
            r == type_bit(self),
    {
        match self {
            SearchFileType::Text => 1u16 << 0u16,
            SearchFileType::Audio => 1u16 << 1u16,
            SearchFileType::Documents => 1u16 << 2u16,
            SearchFileType::Folders => 1u16 << 3u16,
            SearchFileType::Images => 1u16 << 4u16,
            SearchFileType::Pdf => 1u16 << 5u16,
            SearchFileType::Spreadsheets => 1u16 << 6u16,
            SearchFileType::Videos => 1u16 << 7u16,
        }
    }
}

/// A set of file types, one bit per type.
#[derive(Clone, Copy, Debug, Default, Eq, Hash, PartialEq, Structural)]
pub struct SearchFileTypes(pub u16);

/// Whether the set `bits` holds `ty`.
pub open spec fn holds_type(bits: u16, ty: SearchFileType) -> bool {
    bits & type_bit(ty) != 0
}

impl SearchFileTypes {
    /// Whether no file type is selected.
    pub fn is_empty(self) -> (r: bool)
        ensures
            r == (self.0 == 0),
    {
        self.0 == 0
    }

    /// Whether `ty` is selected.
    pub fn contains(self, ty: SearchFileType) -> (r: bool)
        ensures
            r == holds_type(self.0, ty),
    {
        self.0 & ty.bit() != 0
    }

    /// Selects `ty` if it was not selected, and deselects it if it was.
    pub fn toggle(&mut self, ty: SearchFileType)
        ensures
            final(self).0 == old(self).0 ^ type_bit(ty),
    {
        self.0 = self.0 ^ ty.bit();
    }
}

/// Toggling a type flips whether it is selected and leaves every other type
/// as it was; toggling it twice restores the set; the set is empty exactly
/// when it selects no type.
pub proof fn lemma_toggle(bits: u16, ty: SearchFileType, other: SearchFileType)
    ensures
        holds_type(bits ^ type_bit(ty), ty) == !holds_type(bits, ty),
        other != ty ==> holds_type(bits ^ type_bit(ty), other) == holds_type(bits, other),
        (bits ^ type_bit(ty)) ^ type_bit(ty) == bits,
        (bits & 0xff00u16 == 0) ==> (bits == 0 <==> forall|t: SearchFileType| !holds_type(bits, t)),
{
    let a = type_index(ty);
    let b = type_index(other);
    assert(a < 8 && b < 8);
    assert(holds_type(bits ^ (1u16 << a), ty) == !holds_type(bits, ty)) by {
        assert(((bits ^ (1u16 << a)) & (1u16 << a) != 0) == !((bits & (1u16 << a)) != 0)) by (bit_vector)
            requires
                a < 8,
        ;
    }
    if other != ty {
        assert(a != b);
        assert(((bits ^ (1u16 << a)) & (1u16 << b) != 0) == ((bits & (1u16 << b)) != 0)) by (bit_vector)
            requires
                a < 8,
                b < 8,
                a != b,
        ;
    }
    assert(((bits ^ (1u16 << a)) ^ (1u16 << a)) == bits) by (bit_vector);
    if bits & 0xff00u16 == 0 && bits != 0 {
        assert(bits & 0xff00u16 == 0 && bits != 0 ==> (bits & 1u16 != 0 || bits & 2u16 != 0 || bits & 4u16
            != 0 || bits & 8u16 != 0 || bits & 16u16 != 0 || bits & 32u16 != 0 || bits & 64u16 != 0 || bits
            & 128u16 != 0)) by (bit_vector);
        assert(1u16 << 0u16 == 1u16 && 1u16 << 1u16 == 2u16 && 1u16 << 2u16 == 4u16 && 1u16 << 3u16 == 8u16
            && 1u16 << 4u16 == 16u16 && 1u16 << 5u16 == 32u16 && 1u16 << 6u16 == 64u16 && 1u16 << 7u16
            == 128u16) by (bit_vector);
        if bits & 1u16 != 0 {
            assert(holds_type(bits, SearchFileType::Text));
        } else if bits & 2u16 != 0 {
            assert(holds_type(bits, SearchFileType::Audio));
        } else if bits & 4u16 != 0 {
            assert(holds_type(bits, SearchFileType::Documents));
        } else if bits & 8u16 != 0 {
            assert(holds_type(bits, SearchFileType::Folders));
        } else if bits & 16u16 != 0 {
            assert(holds_type(bits, SearchFileType::Images));
        } else if bits & 32u16 != 0 {
            assert(holds_type(bits, SearchFileType::Pdf));
        } else if bits & 64u16 != 0 {
            assert(holds_type(bits, SearchFileType::Spreadsheets));
        } else {
            assert(holds_type(bits, SearchFileType::Videos));
        }
    }
    if bits == 0 {
        assert forall|t: SearchFileType| !holds_type(bits, t) by {
            let i = type_index(t);
            assert(i < 8);
            assert((0u16 & (1u16 << i)) == 0) by (bit_vector);
        }
    }
}

/// How recently a match must have been modified.
#[derive(Clone, Copy, Debug, Eq, Hash, PartialEq, Structural)]
pub enum SearchDate {
    Today,
    Yesterday,
    PastWeek,
    PastMonth,
    PastYear,
}

/// Nanoseconds in a day.
pub const DAY_NANOS: i128 = 86_400_000_000_000;

/// A calendar date in the local time zone: year, month, day.
pub type LocalDate = (i16, i8, i8);

/// Whether a modification time passes a date filter. `modified_day` is the
/// local date of the modification, `None` when the modification time or its
/// date could not be read (then nothing passes); `now_ns` and `modified_ns`
/// are nanoseconds since the epoch; `yesterday` is `None` when the day before
/// today cannot be named.
pub open spec fn spec_matches_date(
    date: SearchDate,
    modified_ns: i128,
    modified_day: Option<LocalDate>,
    now_ns: i128,
    today: LocalDate,
    yesterday: Option<LocalDate>,
) -> bool {
    match modified_day {
        None => false,
        Some(d) => match date {
            SearchDate::Today => d == today,
            SearchDate::Yesterday => yesterday == Some(d),
            SearchDate::PastWeek => modified_ns >= now_ns - 7 * DAY_NANOS,
            SearchDate::PastMonth => modified_ns >= now_ns - 30 * DAY_NANOS,
            SearchDate::PastYear => modified_ns >= now_ns - 365 * DAY_NANOS,
        },
    }
}

/// Whether a modification time passes a date filter (see
/// [`spec_matches_date`]).
pub fn matches_date(
    date: SearchDate,
    modified_ns: i128,
    modified_day: Option<LocalDate>,
    now_ns: i128,
    today: LocalDate,
    yesterday: Option<LocalDate>,
) -> (r: bool)
    requires
        now_ns >= i128::MIN + 365 * DAY_NANOS,
    ensures
        r == spec_matches_date(date, modified_ns, modified_day, now_ns, today, yesterday),
{
    let d = match modified_day {
        None => return false,
        Some(d) => d,
    };
    match date {
        SearchDate::Today => d.0 == today.0 && d.1 == today.1 && d.2 == today.2,
        SearchDate::Yesterday => match yesterday {
            Some(y) => y.0 == d.0 && y.1 == d.1 && y.2 == d.2,
            None => false,
        },
        SearchDate::PastWeek => modified_ns >= now_ns - 7 * DAY_NANOS,
        SearchDate::PastMonth => modified_ns >= now_ns - 30 * DAY_NANOS,
        SearchDate::PastYear => modified_ns >= now_ns - 365 * DAY_NANOS,
    }
}

/// What each date filter passes: "today" exactly the entries whose local
/// modification date is today's (same year, month and day), "yesterday"
/// exactly those modified on the day before (when it can be named), and the
/// past week, month (30 days) and year (365 days) the entries modified at
/// most that long before now. An entry whose date cannot be read passes none.
pub proof fn lemma_date_filters(
    modified_ns: i128,
    modified_day: Option<LocalDate>,
    now_ns: i128,
    today: LocalDate,
    yesterday: Option<LocalDate>,
)
    ensures
        spec_matches_date(SearchDate::Today, modified_ns, modified_day, now_ns, today, yesterday) <==> (
        modified_day matches Some(d) && d.0 == today.0 && d.1 == today.1 && d.2 == today.2),
        spec_matches_date(SearchDate::Yesterday, modified_ns, modified_day, now_ns, today, yesterday) <==> (
        modified_day matches Some(d) && yesterday matches Some(y) && d.0 == y.0 && d.1 == y.1 && d.2 == y.2),
        spec_matches_date(SearchDate::PastWeek, modified_ns, modified_day, now_ns, today, yesterday) <==> (
        modified_day is Some && now_ns - modified_ns <= 7 * 86_400_000_000_000),
        spec_matches_date(SearchDate::PastMonth, modified_ns, modified_day, now_ns, today, yesterday) <==> (
        modified_day is Some && now_ns - modified_ns <= 30 * 86_400_000_000_000),
        spec_matches_date(SearchDate::PastYear, modified_ns, modified_day, now_ns, today, yesterday) <==> (
        modified_day is Some && now_ns - modified_ns <= 365 * 86_400_000_000_000),
{
}

/// What a search term is matched against.
#[derive(Clone, Copy, Debug, Eq, Hash, PartialEq, Structural)]
pub enum SearchTextMatching {
    ContentAndFilename,
    FilenameOnly,
}

/// The filters of a search. Custom file types are MIME type essences.
#[derive(Clone, Debug, Eq, Hash, PartialEq)]
pub struct SearchFilter {
    pub file_types: SearchFileTypes,
    pub custom_file_types: Vec<String>,
    pub date: Option<SearchDate>,
    pub text_matching: SearchTextMatching,
    pub recursive: bool,
    pub raw_regex: bool,
}

impl SearchFilter {
    /// No file-type or date filter, matching content and file names,
    /// recursively, with glob syntax.
    pub fn new() -> (r: Self)
        ensures
            r.file_types.0 == 0,
            r.custom_file_types@.len() == 0,
            r.date is None,
            r.text_matching == SearchTextMatching::ContentAndFilename,
            r.recursive,
            !r.raw_regex,
    {
        SearchFilter {
            file_types: SearchFileTypes(0),
            custom_file_types: Vec::new(),
            date: None,
            text_matching: SearchTextMatching::ContentAndFilename,
            recursive: true,
            raw_regex: false,
        }
    }
}

/// Content larger than this many bytes is not searched.
pub const CONTENT_MAX_BYTES: u64 = 4194304;

/// Whether the content of a file of MIME type `essence` is searched as text.
pub open spec fn spec_text_searchable(essence: Seq<char>) -> bool {
    has_prefix(essence, "text/"@) || essence == "application/json"@ || essence == "application/xml"@
        || essence == "application/x-yaml"@
}

/// Whether the content of a file of MIME type `essence` is searched as text.
pub fn is_text_searchable(essence: &str) -> (r: bool)
    ensures
        r == spec_text_searchable(essence@),
{
    starts_with(essence, "text/") || str_equal(essence, "application/json") || str_equal(
        essence,
        "application/xml",
    ) || str_equal(essence, "application/x-yaml")
}

/// The office kind that a generic icon name stands for.
pub open spec fn spec_office_type(essence: Seq<char>, generic: Seq<char>, generic_icon: Option<Seq<char>>) -> bool {
    if generic_icon == Some(generic) {
        true
    } else if generic == "x-office-document"@ {
        essence == "application/msword"@ || essence == "application/rtf"@ || essence
            == "application/vnd.oasis.opendocument.text"@ || essence
            == "application/vnd.openxmlformats-officedocument.wordprocessingml.document"@
    } else if generic == "x-office-spreadsheet"@ {
        essence == "application/vnd.ms-excel"@ || essence == "application/vnd.oasis.opendocument.spreadsheet"@
            || essence == "application/vnd.openxmlformats-officedocument.spreadsheetml.sheet"@ || essence
            == "text/csv"@
    } else {
        false
    }
}

/// Whether MIME type `essence` is of the office kind `generic`: its generic
/// icon (where the system MIME database gives one) is `generic`, or it is
/// one of the well-known types of that kind.
pub fn office_type(essence: &str, generic: &str, generic_icon: Option<&str>) -> (r: bool)
    ensures
        r == spec_office_type(essence@, generic@, match generic_icon {
            Some(g) => Some(g@),
            None => None,
        }),
{
    match generic_icon {
        Some(g) => {
            if str_equal(g, generic) {
                return true;
            }
        },
        None => {},
    }
    if str_equal(generic, "x-office-document") {
        str_equal(essence, "application/msword") || str_equal(essence, "application/rtf") || str_equal(
            essence,
            "application/vnd.oasis.opendocument.text",
        ) || str_equal(
            essence,
            "application/vnd.openxmlformats-officedocument.wordprocessingml.document",
        )
    } else if str_equal(generic, "x-office-spreadsheet") {
        str_equal(essence, "application/vnd.ms-excel") || str_equal(
            essence,
            "application/vnd.oasis.opendocument.spreadsheet",
        ) || str_equal(
            essence,
            "application/vnd.openxmlformats-officedocument.spreadsheetml.sheet",
        ) || str_equal(essence, "text/csv")
    } else {
        false
    }
}

/// What is known of a file's MIME type: its essence (`type/subtype`) and
/// the generic icon that the system MIME database gives it, if any.
#[derive(Clone, Debug)]
pub struct MimeFacts {
    pub essence: String,
    pub generic_icon: Option<String>,
}

/// The generic icon of a MIME type, as text.
pub open spec fn icon_view(m: MimeFacts) -> Option<Seq<char>> {
    match m.generic_icon {
        Some(g) => Some(g@),
        None => None,
    }
}

/// Whether an entry is of file type `ty`: folders are folders; other types
/// match files only, by their MIME type.
pub open spec fn spec_matches_file_type(is_dir: bool, mime: MimeFacts, ty: SearchFileType) -> bool {
    let e = mime.essence@;
    if ty == SearchFileType::Folders {
        is_dir
    } else if is_dir {
        false
    } else {
        match ty {
            SearchFileType::Text => has_prefix(e, "text/"@),
            SearchFileType::Audio => has_prefix(e, "audio/"@),
            SearchFileType::Images => has_prefix(e, "image/"@),
            SearchFileType::Pdf => e == "application/pdf"@,
            SearchFileType::Videos => has_prefix(e, "video/"@),
            SearchFileType::Documents => spec_office_type(e, "x-office-document"@, icon_view(mime)),
            SearchFileType::Spreadsheets => spec_office_type(e, "x-office-spreadsheet"@, icon_view(mime)),
            SearchFileType::Folders => false,
        }
    }
}

/// Whether an entry is of file type `ty`.
pub fn matches_file_type(is_dir: bool, mime: &MimeFacts, ty: SearchFileType) -> (r: bool)
    ensures
        r == spec_matches_file_type(is_dir, *mime, ty),
{
    if ty == SearchFileType::Folders {
        return is_dir;
    }
    if is_dir {
        return false;
    }
    let e = mime.essence.as_str();
    let icon = match &mime.generic_icon {
        Some(g) => Some(g.as_str()),
        None => None,
    };
    match ty {
        SearchFileType::Text => starts_with(e, "text/"),
        SearchFileType::Audio => starts_with(e, "audio/"),
        SearchFileType::Images => starts_with(e, "image/"),
        SearchFileType::Pdf => str_equal(e, "application/pdf"),
        SearchFileType::Videos => starts_with(e, "video/"),
        SearchFileType::Documents => office_type(e, "x-office-document", icon),
        SearchFileType::Spreadsheets => office_type(e, "x-office-spreadsheet", icon),
        SearchFileType::Folders => false,
    }
}

/// Whether the filter limits matches by file type.
pub open spec fn spec_types_active(filter: SearchFilter) -> bool {
    !filter.raw_regex && (filter.file_types.0 != 0 || filter.custom_file_types@.len() != 0)
}

/// Whether the filter limits matches by file type.
pub fn types_active(filter: &SearchFilter) -> (r: bool)
    ensures
        r == spec_types_active(*filter),
{
    !filter.raw_regex && (!filter.file_types.is_empty() || filter.custom_file_types.len() != 0)
}

/// Whether an entry's MIME type must be known to decide whether it matches.
pub open spec fn spec_needs_mime(filter: SearchFilter, filename_matches: bool, is_file: bool) -> bool {
    spec_types_active(filter) || (!filename_matches && filter.text_matching
        == SearchTextMatching::ContentAndFilename && is_file)
}

/// Whether an entry's MIME type must be known to decide whether it matches.
pub fn needs_mime(filter: &SearchFilter, filename_matches: bool, is_file: bool) -> (r: bool)
    ensures
        r == spec_needs_mime(*filter, filename_matches, is_file),
{
    types_active(filter) || (!filename_matches && filter.text_matching == SearchTextMatching::ContentAndFilename
        && is_file)
}

/// What is known of an entry when deciding whether it matches a search.
#[derive(Clone, Debug)]
pub struct EntryFacts {
    /// Whether the entry passes the date filter (where there is one).
    pub date_matches: bool,
    /// Whether the entry's name matches the search pattern.
    pub filename_matches: bool,
    pub is_dir: bool,
    pub is_file: bool,
    /// The entry's size in bytes.
    pub len: u64,
    /// The entry's MIME type, where it was needed.
    pub mime: Option<MimeFacts>,
    /// For each custom file type of the filter, whether the entry's MIME
    /// type is that type or a subclass of it.
    pub custom_matches: Vec<bool>,
}

/// Whether any of the selected file types matches.
pub open spec fn spec_base_type_match(filter: SearchFilter, is_dir: bool, mime: MimeFacts) -> bool {
    exists|t: SearchFileType| holds_type(filter.file_types.0, t) && spec_matches_file_type(is_dir, mime, t)
}

/// Whether the content of the entry must be searched: its name does not
/// match, content is searched, and it is a small enough text file.
pub open spec fn spec_needs_content(filter: SearchFilter, facts: EntryFacts) -> bool {
    !facts.filename_matches && filter.text_matching == SearchTextMatching::ContentAndFilename && facts.is_file
        && facts.len <= CONTENT_MAX_BYTES && (facts.mime matches Some(m) && spec_text_searchable(m.essence@))
}

/// Whether an entry matches the search, where `content_matches` tells
/// whether its content matches (asked only where the content is searched).
pub open spec fn spec_matches_filter(filter: SearchFilter, facts: EntryFacts, content_matches: bool) -> bool {
    if filter.date is Some && !facts.date_matches {
        false
    } else if spec_types_active(filter) && !(facts.mime matches Some(m) && (spec_base_type_match(
        filter,
        facts.is_dir,
        m,
    ) || (facts.is_file && exists|i: int| 0 <= i < facts.custom_matches@.len() && facts.custom_matches@[i]))) {
        false
    } else {
        facts.filename_matches || (spec_needs_content(filter, facts) && content_matches)
    }
}

/// Whether the content of the entry must be searched.
pub fn needs_content(filter: &SearchFilter, facts: &EntryFacts) -> (r: bool)
    ensures
        r == spec_needs_content(*filter, *facts),
{
    if facts.filename_matches || filter.text_matching != SearchTextMatching::ContentAndFilename || !facts.is_file
        || facts.len > CONTENT_MAX_BYTES {
        return false;
    }
    match &facts.mime {
        Some(m) => is_text_searchable(m.essence.as_str()),
        None => false,
    }
}

/// Whether an entry matches the search. The file types are checked against
/// the entry's MIME type (an entry whose type is unknown fails them), the date filter against
/// what the caller found, and the content only where it is searched.
pub fn matches_filter(filter: &SearchFilter, facts: &EntryFacts, content_matches: bool) -> (r: bool)
    ensures
        r == spec_matches_filter(*filter, *facts, content_matches),
{
    if filter.date.is_some() && !facts.date_matches {
        return false;
    }
    if types_active(filter) {
        let mime = match &facts.mime {
            Some(m) => m,
            None => return false,
        };
        let all = SearchFileType::all();
        let mut base = false;
        let mut i: usize = 0;
        while i < all.len()
            invariant
                i <= all@.len(),
                all@.len() == 8,
                all@ == seq![
                    SearchFileType::Text,
                    SearchFileType::Audio,
                    SearchFileType::Documents,
                    SearchFileType::Folders,
                    SearchFileType::Images,
                    SearchFileType::Pdf,
                    SearchFileType::Spreadsheets,
                    SearchFileType::Videos,
                ],
                base == exists|j: int|
                    0 <= j < i && holds_type(filter.file_types.0, #[trigger] all@[j])
                        && spec_matches_file_type(facts.is_dir, *mime, all@[j]),
            decreases all@.len() - i,
        {
            let t = all[i];
            if filter.file_types.contains(t) && matches_file_type(facts.is_dir, mime, t) {
                base = true;
            }
            i = i + 1;
        }
        proof {
            assert(base == spec_base_type_match(*filter, facts.is_dir, *mime)) by {
                if spec_base_type_match(*filter, facts.is_dir, *mime) {
                    let t = choose|t: SearchFileType|
                        holds_type(filter.file_types.0, t) && spec_matches_file_type(facts.is_dir, *mime, t);
                    let j = type_index(t) as int;
                    assert(all@[j] == t);
                }
            }
        }
        let mut custom = false;
        if facts.is_file {
            let mut k: usize = 0;
            while k < facts.custom_matches.len()
                invariant
                    k <= facts.custom_matches@.len(),
                    custom == exists|j: int| 0 <= j < k && facts.custom_matches@[j],
                decreases facts.custom_matches@.len() - k,
            {
                if facts.custom_matches[k] {
                    custom = true;
                }
                k = k + 1;
            }
        }
        if !base && !custom {
            return false;
        }
    }
    facts.filename_matches || (needs_content(filter, facts) && content_matches)
}

/// The pattern that texts are searched with: for a raw search the term
/// itself, a regular expression; otherwise the term matched literally.
pub open spec fn spec_text_pattern(term: Seq<char>, raw: bool) -> Seq<char> {
    if raw {
        term
    } else {
        regex_escaped(term)
    }
}

/// A search term, ready for matching: file names are matched against the
/// term as a regular expression in a raw search, else as a glob; texts are
/// matched against [`spec_text_pattern`]. All of them ignore case.
#[derive(Clone, Debug)]
pub struct SearchPattern {
    pub term: String,
    pub raw: bool,
    pub text: String,
}

impl SearchPattern {
    /// Prepares a search term. Fails exactly where a pattern cannot be
    /// built: outside a raw search the file-name glob, and always the text
    /// pattern (in a raw search that is the term, which is also the
    /// file-name pattern); which patterns build is the libraries' answer.
    pub fn compile(term: &str, raw: bool) -> (r: Option<SearchPattern>)
        ensures
            r is Some <==> ((raw || glob_ci_valid(term@)) && regex_ci_valid(spec_text_pattern(term@, raw))),
            r matches Some(p) ==> p.term@ == term@ && p.raw == raw && p.text@ == spec_text_pattern(term@, raw),
    {
        if !raw && glob_ci_is_match(term, "").is_none() {
            return None;
        }
        let text = if raw {
            copy_str(term)
        } else {
            escape(term)
        };
        match ci_is_match(text.as_str(), "") {
            None => None,
            Some(_) => Some(SearchPattern { term: copy_str(term), raw, text }),
        }
    }

    /// Whether a file name matches the term, ignoring case: as a regular
    /// expression in a raw search, else as a glob; none exactly where the
    /// pattern cannot be built.
    pub fn filename_matches(&self, name: &str) -> (r: Option<bool>)
        ensures
            self.raw ==> (r is Some <==> regex_ci_valid(self.term@)),
            self.raw ==> (r matches Some(b) ==> b == regex_ci_match(self.term@, name@)),
            !self.raw ==> (r is Some <==> glob_ci_valid(self.term@)),
            !self.raw ==> (r matches Some(b) ==> b == glob_ci_match(self.term@, name@)),
    {
        if self.raw {
            ci_is_match(self.term.as_str(), name)
        } else {
            glob_ci_is_match(self.term.as_str(), name)
        }
    }

    /// Whether a text (a file's content, an entry's name) matches the text
    /// pattern, ignoring case; none exactly where it cannot be built.
    pub fn text_matches(&self, text: &str) -> (r: Option<bool>)
        ensures
            r is Some <==> regex_ci_valid(self.text@),
            r matches Some(b) ==> b == regex_ci_match(self.text@, text@),
    {
        ci_is_match(self.text.as_str(), text)
    }
}

} // verus!
