//! Display projections of a document slice: the text that is painted and the
//! two cursor maps between document characters and painted characters.
use vstd::prelude::*;
use crate::text::{chars_of, is_cc, string_of};

verus! {

/// How cursor boundaries inside a substitution map back to the document.
#[derive(Clone, Copy, PartialEq, Eq, Debug)]
pub enum CursorSubstitutionPolicy {
    /// The glyph stands for one cell: its inner boundaries snap to the nearer edge.
    SingleCell,
    /// The glyph is followed by a row break: only the final boundary passes the character.
    LineEndingMarker,
}

/// The glyph painted in place of a control character. Under
/// `LineEndingMarker` the glyph is followed by a line feed that starts a new row.
#[derive(Clone, Copy, PartialEq, Eq, Debug)]
pub struct VisibleControlSubstitution {
    pub glyph: char,
    pub cursor_policy: CursorSubstitutionPolicy,
}

/// The painted characters of a substitution.
pub open spec fn substitution_text(sub: VisibleControlSubstitution) -> Seq<char> {
    match sub.cursor_policy {
        CursorSubstitutionPolicy::SingleCell => seq![sub.glyph],
        CursorSubstitutionPolicy::LineEndingMarker => seq![sub.glyph, '\n'],
    }
}

/// Private-use glyphs for invisible Unicode formatting characters.
pub open spec fn unicode_control_glyph_spec(ch: char) -> Option<char> {
    if ch == '\u{200B}' { Some('\u{F000}') }
    else if ch == '\u{200C}' { Some('\u{F001}') }
    else if ch == '\u{200D}' { Some('\u{F002}') }
    else if ch == '\u{200E}' { Some('\u{F003}') }
    else if ch == '\u{200F}' { Some('\u{F004}') }
    else if ch == '\u{202A}' { Some('\u{F005}') }
    else if ch == '\u{202B}' { Some('\u{F006}') }
    else if ch == '\u{202C}' { Some('\u{F007}') }
    else if ch == '\u{202D}' { Some('\u{F008}') }
    else if ch == '\u{202E}' { Some('\u{F009}') }
    else if ch == '\u{2060}' { Some('\u{F00A}') }
    else if ch == '\u{2061}' { Some('\u{F00B}') }
    else if ch == '\u{2062}' { Some('\u{F00C}') }
    else if ch == '\u{2063}' { Some('\u{F00D}') }
    else if ch == '\u{2064}' { Some('\u{F00E}') }
    else if ch == '\u{2066}' { Some('\u{F00F}') }
    else if ch == '\u{2067}' { Some('\u{F010}') }
    else if ch == '\u{2068}' { Some('\u{F011}') }
    else if ch == '\u{2069}' { Some('\u{F012}') }
    else if ch == '\u{FEFF}' { Some('\u{F013}') }
    else if ch == '\u{061C}' { Some('\u{F014}') }
    else if ch == '\u{206A}' { Some('\u{F015}') }
    else if ch == '\u{206B}' { Some('\u{F016}') }
    else if ch == '\u{206C}' { Some('\u{F017}') }
    else if ch == '\u{206D}' { Some('\u{F018}') }
    else if ch == '\u{206E}' { Some('\u{F019}') }
    else if ch == '\u{206F}' { Some('\u{F01A}') }
    else { None }
}

/// The Unicode control picture (U+2400 block) of a C0 control character.
pub open spec fn control_picture_spec(ch: char) -> char {
    (0x2400 + (ch as u32)) as u32 as char
}

fn single(glyph: char) -> (sub: VisibleControlSubstitution)
    ensures
        sub.glyph == glyph,
        sub.cursor_policy == CursorSubstitutionPolicy::SingleCell,
{
    VisibleControlSubstitution { glyph, cursor_policy: CursorSubstitutionPolicy::SingleCell }
}

/// The substitution painted for `ch` (followed by `next`), if it is shown as a glyph.
pub open spec fn visible_substitution(ch: char, next: Option<char>) -> Option<VisibleControlSubstitution> {
    let line_end = CursorSubstitutionPolicy::LineEndingMarker;
    let one = CursorSubstitutionPolicy::SingleCell;
    if ch == '\t' {
        Some(VisibleControlSubstitution { glyph: '\u{2409}', cursor_policy: one })
    } else if ch == '\n' {
        Some(VisibleControlSubstitution { glyph: '\u{240A}', cursor_policy: line_end })
    } else if ch == '\r' && next == Some('\n') {
        Some(VisibleControlSubstitution { glyph: '\u{240D}', cursor_policy: one })
    } else if ch == '\r' {
        Some(VisibleControlSubstitution { glyph: '\u{240D}', cursor_policy: line_end })
    } else if ch == '\u{007F}' {
        Some(VisibleControlSubstitution { glyph: '\u{2421}', cursor_policy: one })
    } else if unicode_control_glyph_spec(ch) is Some {
        Some(VisibleControlSubstitution { glyph: unicode_control_glyph_spec(ch)->0, cursor_policy: one })
    } else if is_cc(ch) && (ch as u32) <= 0x1F {
        Some(VisibleControlSubstitution { glyph: control_picture_spec(ch), cursor_policy: one })
    } else {
        None
    }
}

/// The glyph for an invisible Unicode formatting character, if it has one.
pub fn visible_unicode_control_glyph(ch: char) -> (glyph: Option<char>)
    ensures
        glyph == unicode_control_glyph_spec(ch),
{
    match ch {
        '\u{200B}' => Some('\u{F000}'),
        '\u{200C}' => Some('\u{F001}'),
        '\u{200D}' => Some('\u{F002}'),
        '\u{200E}' => Some('\u{F003}'),
        '\u{200F}' => Some('\u{F004}'),
        '\u{202A}' => Some('\u{F005}'),
        '\u{202B}' => Some('\u{F006}'),
        '\u{202C}' => Some('\u{F007}'),
        '\u{202D}' => Some('\u{F008}'),
        '\u{202E}' => Some('\u{F009}'),
        '\u{2060}' => Some('\u{F00A}'),
        '\u{2061}' => Some('\u{F00B}'),
        '\u{2062}' => Some('\u{F00C}'),
        '\u{2063}' => Some('\u{F00D}'),
        '\u{2064}' => Some('\u{F00E}'),
        '\u{2066}' => Some('\u{F00F}'),
        '\u{2067}' => Some('\u{F010}'),
        '\u{2068}' => Some('\u{F011}'),
        '\u{2069}' => Some('\u{F012}'),
        '\u{FEFF}' => Some('\u{F013}'),
        '\u{061C}' => Some('\u{F014}'),
        '\u{206A}' => Some('\u{F015}'),
        '\u{206B}' => Some('\u{F016}'),
        '\u{206C}' => Some('\u{F017}'),
        '\u{206D}' => Some('\u{F018}'),
        '\u{206E}' => Some('\u{F019}'),
        '\u{206F}' => Some('\u{F01A}'),
        _ => None,
    }
}

/// The control picture of a C0 control character.
pub fn control_picture(ch: char) -> (picture: char)
    requires
        (ch as u32) <= 0x1F,
    ensures
        picture == control_picture_spec(ch),
{
    let code = ch as u32;
    match core::char::from_u32(0x2400 + code) {
        Some(picture) => picture,
        None => '\u{2426}',
    }
}

/// The substitution for `ch` (followed by `next`) when control characters are shown.
pub fn visible_control_char(ch: char, next: Option<char>) -> (sub: Option<VisibleControlSubstitution>)
    ensures
        sub == visible_substitution(ch, next),
{
    if ch == '\t' {
        Some(single('\u{2409}'))
    } else if ch == '\n' {
        Some(VisibleControlSubstitution { glyph: '\u{240A}', cursor_policy: CursorSubstitutionPolicy::LineEndingMarker })
    } else if ch == '\r' && next == Some('\n') {
        Some(single('\u{240D}'))
    } else if ch == '\r' {
        Some(VisibleControlSubstitution { glyph: '\u{240D}', cursor_policy: CursorSubstitutionPolicy::LineEndingMarker })
    } else if ch == '\u{007F}' {
        Some(single('\u{2421}'))
    } else {
        match visible_unicode_control_glyph(ch) {
            Some(glyph) => Some(single(glyph)),
            None => {
                if ch.is_control() && (ch as u32) <= 0x1F {
                    Some(single(control_picture(ch)))
                } else {
                    None
                }
            },
        }
    }
}

/// The character after position `i`, if any.
pub open spec fn next_char(s: Seq<char>, i: int) -> Option<char> {
    if i + 1 < s.len() { Some(s[i + 1]) } else { None }
}

/// The painted characters for document character `i` of `s`.
pub open spec fn display_piece(s: Seq<char>, i: int) -> Seq<char> {
    match visible_substitution(s[i], next_char(s, i)) {
        Some(sub) => substitution_text(sub),
        None => seq![s[i]],
    }
}

/// The document cursor for each painted boundary inside the piece of character `i`.
pub open spec fn piece_cursors(s: Seq<char>, i: int) -> Seq<usize> {
    match visible_substitution(s[i], next_char(s, i)) {
        Some(sub) => match sub.cursor_policy {
            CursorSubstitutionPolicy::SingleCell => seq![(i + 1) as usize],
            CursorSubstitutionPolicy::LineEndingMarker => seq![i as usize, (i + 1) as usize],
        },
        None => seq![(i + 1) as usize],
    }
}

/// Painted text for the first `n` characters of `s`.
pub open spec fn display_prefix(s: Seq<char>, n: nat) -> Seq<char>
    decreases n,
{
    if n == 0 {
        Seq::empty()
    } else {
        display_prefix(s, (n - 1) as nat) + display_piece(s, n - 1)
    }
}

/// Document cursor for every painted boundary of the first `n` characters.
pub open spec fn cursor_prefix(s: Seq<char>, n: nat) -> Seq<usize>
    decreases n,
{
    if n == 0 {
        seq![0usize]
    } else {
        cursor_prefix(s, (n - 1) as nat) + piece_cursors(s, n - 1)
    }
}

/// Painted boundary of every document cursor `0..=n`.
pub open spec fn display_offsets(s: Seq<char>, n: nat) -> Seq<usize> {
    Seq::new(n + 1, |i: int| display_prefix(s, i as nat).len() as usize)
}

/// Cursor maps between a document slice and its painted text.
#[derive(Debug)]
pub struct DisplayTextMap {
    doc_to_display: Vec<usize>,
    display_to_doc: Vec<usize>,
}

/// The two cursor maps of a `DisplayTextMap`.
pub struct DisplayTextMapView {
    pub doc_to_display: Seq<usize>,
    pub display_to_doc: Seq<usize>,
}

impl View for DisplayTextMap {
    type V = DisplayTextMapView;

    closed spec fn view(&self) -> DisplayTextMapView {
        DisplayTextMapView {
            doc_to_display: self.doc_to_display@,
            display_to_doc: self.display_to_doc@,
        }
    }
}

impl Clone for DisplayTextMap {
    fn clone(&self) -> (copy: Self)
        ensures
            copy@ == self@,
    {
        DisplayTextMap {
            doc_to_display: self.doc_to_display.clone(),
            display_to_doc: self.display_to_doc.clone(),
        }
    }
}

/// Entry `cursor` of `m`; past the end the last entry, and 0 for an empty map.
pub open spec fn lookup_or_last(m: Seq<usize>, cursor: int) -> usize {
    if 0 <= cursor < m.len() {
        m[cursor]
    } else if m.len() > 0 {
        m[m.len() - 1]
    } else {
        0
    }
}

fn get_or_last(m: &Vec<usize>, cursor: usize) -> (r: usize)
    ensures
        r == lookup_or_last(m@, cursor as int),
{
    if cursor < m.len() {
        m[cursor]
    } else if m.len() > 0 {
        m[m.len() - 1]
    } else {
        0
    }
}

impl DisplayTextMap {
    /// Builds a map from its two cursor tables.
    pub fn from_parts(doc_to_display: Vec<usize>, display_to_doc: Vec<usize>) -> (map: Self)
        ensures
            map@.doc_to_display == doc_to_display@,
            map@.display_to_doc == display_to_doc@,
    {
        DisplayTextMap { doc_to_display, display_to_doc }
    }

    /// Painted cursor for a document cursor; past the slice, the last boundary.
    pub fn doc_to_display_cursor(&self, cursor: usize) -> (r: usize)
        ensures
            r == lookup_or_last(self@.doc_to_display, cursor as int),
    {
        get_or_last(&self.doc_to_display, cursor)
    }

    /// Document cursor for a painted cursor; past the text, the last boundary.
    pub fn display_to_doc_cursor(&self, cursor: usize) -> (r: usize)
        ensures
            r == lookup_or_last(self@.display_to_doc, cursor as int),
    {
        get_or_last(&self.display_to_doc, cursor)
    }

    /// Number of painted characters.
    pub fn display_len(&self) -> (len: usize)
        ensures
            len == if self@.display_to_doc.len() > 0 { self@.display_to_doc.len() - 1 } else { 0 },
    {
        if self.display_to_doc.len() > 0 { self.display_to_doc.len() - 1 } else { 0 }
    }

    /// The painted span of a document range, or `None` when it paints nothing.
    pub fn doc_range_to_display(&self, range: std::ops::Range<usize>) -> (r: Option<std::ops::Range<usize>>)
        ensures
            ({
                let start = lookup_or_last(self@.doc_to_display, range.start as int);
                let end = lookup_or_last(self@.doc_to_display, range.end as int);
                match r {
                    Some(out) => start < end && out.start == start && out.end == end,
                    None => !(start < end),
                }
            }),
    {
        let start = self.doc_to_display_cursor(range.start);
        let end = self.doc_to_display_cursor(range.end);
        if start < end {
            Some(start..end)
        } else {
            None
        }
    }
}

/// The painted text of a slice and, when it differs from the document, its cursor map.
pub struct DisplayTextSlice {
    pub text: String,
    pub map: Option<DisplayTextMap>,
}

proof fn lemma_piece_shapes(s: Seq<char>, i: int)
    requires
        0 <= i < s.len(),
        s.len() + 1 < usize::MAX,
    ensures
        display_piece(s, i).len() == piece_cursors(s, i).len(),
        1 <= display_piece(s, i).len() <= 2,
        piece_cursors(s, i)[piece_cursors(s, i).len() - 1] == i + 1,
        forall|k: int| 0 <= k < piece_cursors(s, i).len() ==> i <= #[trigger] piece_cursors(s, i)[k] <= i + 1,
{
}

proof fn lemma_prefix_lengths(s: Seq<char>, n: nat)
    requires
        n <= s.len(),
        s.len() + 1 < usize::MAX,
    ensures
        cursor_prefix(s, n).len() == display_prefix(s, n).len() + 1,
        cursor_prefix(s, n)[cursor_prefix(s, n).len() - 1] == n,
        n <= display_prefix(s, n).len() <= 2 * n,
    decreases n,
{
    if n > 0 {
        lemma_prefix_lengths(s, (n - 1) as nat);
        lemma_piece_shapes(s, n - 1);
    }
}

proof fn lemma_cursor_prefix_extends(s: Seq<char>, m: nat, n: nat, k: int)
    requires
        m <= n <= s.len(),
        s.len() + 1 < usize::MAX,
        0 <= k < cursor_prefix(s, m).len(),
    ensures
        cursor_prefix(s, n).len() >= cursor_prefix(s, m).len(),
        cursor_prefix(s, n)[k] == cursor_prefix(s, m)[k],
    decreases n - m,
{
    if m < n {
        lemma_cursor_prefix_extends(s, m, (n - 1) as nat, k);
        lemma_prefix_lengths(s, (n - 1) as nat);
    }
}

proof fn lemma_display_prefix_monotone(s: Seq<char>, m: nat, n: nat)
    requires
        m <= n <= s.len(),
        s.len() + 1 < usize::MAX,
    ensures
        display_prefix(s, m).len() + (n - m) <= display_prefix(s, n).len(),
        display_prefix(s, m) =~= display_prefix(s, n).take(display_prefix(s, m).len() as int),
    decreases n - m,
{
    if m < n {
        lemma_display_prefix_monotone(s, m, (n - 1) as nat);
        lemma_piece_shapes(s, n - 1);
    }
}

/// Paints a document slice, substituting glyphs for control characters when
/// `show_control_chars` is set; the map is present exactly when it is set.
pub fn display_text_slice(text: &str, show_control_chars: bool) -> (slice: DisplayTextSlice)
    requires
        show_control_chars ==> text@.len() + 2 < usize::MAX / 2,
    ensures
        !show_control_chars ==> slice.text@ == text@ && slice.map is None,
        show_control_chars ==> slice.text@ == display_prefix(text@, text@.len()) && slice.map is Some
            && slice.map->0@.doc_to_display == display_offsets(text@, text@.len())
            && slice.map->0@.display_to_doc == cursor_prefix(text@, text@.len()),
{
    let chars = chars_of(text);
    if !show_control_chars {
        return DisplayTextSlice { text: string_of(chars.as_slice()), map: None };
    }
    let doc_len = chars.len();
    let mut visible: Vec<char> = Vec::new();
    let mut doc_to_display: Vec<usize> = Vec::new();
    let mut display_to_doc: Vec<usize> = Vec::new();
    display_to_doc.push(0);
    let mut display_chars: usize = 0;
    let ghost s = text@;
    let mut doc_index: usize = 0;
    while doc_index < doc_len
        invariant
            chars@ == s,
            doc_len == s.len(),
            doc_len + 2 < usize::MAX / 2,
            doc_index <= doc_len,
            visible@ == display_prefix(s, doc_index as nat),
            display_chars == visible@.len(),
            display_to_doc@ == cursor_prefix(s, doc_index as nat),
            doc_to_display@ == display_offsets(s, doc_index as nat).take(doc_index as int),
        decreases doc_len - doc_index,
    {
        proof {
            lemma_prefix_lengths(s, doc_index as nat);
            lemma_piece_shapes(s, doc_index as int);
        }
        let ch = chars[doc_index];
        let next = if doc_index + 1 < doc_len { Some(chars[doc_index + 1]) } else { None };
        doc_to_display.push(display_chars);
        match visible_control_char(ch, next) {
            Some(display) => {
                visible.push(display.glyph);
                let len: usize = match display.cursor_policy {
                    CursorSubstitutionPolicy::SingleCell => 1,
                    CursorSubstitutionPolicy::LineEndingMarker => {
                        visible.push('\n');
                        2
                    },
                };
                push_display_cursor_boundaries(&mut display_to_doc, doc_index, len, display.cursor_policy);
                display_chars = display_chars + len;
            },
            None => {
                visible.push(ch);
                display_to_doc.push(doc_index + 1);
                display_chars = display_chars + 1;
            },
        }
        doc_index = doc_index + 1;
        proof {
            assert(visible@ =~= display_prefix(s, doc_index as nat));
            assert(display_to_doc@ =~= cursor_prefix(s, doc_index as nat));
            assert(doc_to_display@ =~= display_offsets(s, doc_index as nat).take(doc_index as int));
        }
    }
    proof {
        lemma_prefix_lengths(s, doc_len as nat);
    }
    doc_to_display.push(display_chars);
    assert(doc_to_display@ =~= display_offsets(s, doc_len as nat));
    DisplayTextSlice {
        text: string_of(visible.as_slice()),
        map: Some(DisplayTextMap { doc_to_display, display_to_doc }),
    }
}

/// The document cursor for painted boundary `boundary` (1-based) of a
/// substitution of `display_len` characters standing for character `doc_index`.
pub open spec fn boundary_cursor(doc_index: int, boundary: int, display_len: int, policy: CursorSubstitutionPolicy) -> int {
    match policy {
        CursorSubstitutionPolicy::SingleCell => if boundary < display_len && boundary < (display_len + 1) / 2 {
            doc_index
        } else {
            doc_index + 1
        },
        CursorSubstitutionPolicy::LineEndingMarker => if boundary < display_len {
            doc_index
        } else {
            doc_index + 1
        },
    }
}

/// Appends the document cursor of each painted boundary of a substitution.
pub fn push_display_cursor_boundaries(
    display_to_doc: &mut Vec<usize>,
    doc_index: usize,
    display_len: usize,
    policy: CursorSubstitutionPolicy,
)
    requires
        doc_index < usize::MAX,
        display_len < usize::MAX,
    ensures
        final(display_to_doc)@ == old(display_to_doc)@ + Seq::new(
            display_len as nat,
            |k: int| boundary_cursor(doc_index as int, k + 1, display_len as int, policy) as usize,
        ),
{
    let ghost start = display_to_doc@;
    let mut boundary: usize = 1;
    while boundary <= display_len
        invariant
            1 <= boundary <= display_len + 1,
            doc_index < usize::MAX,
            display_len < usize::MAX,
            display_to_doc@ == start + Seq::new(
                (boundary - 1) as nat,
                |k: int| boundary_cursor(doc_index as int, k + 1, display_len as int, policy) as usize,
            ),
        decreases display_len + 1 - boundary,
    {
        let doc_cursor = match policy {
            CursorSubstitutionPolicy::SingleCell => {
                if boundary < display_len && boundary < (display_len - 1) / 2 + 1 {
                    doc_index
                } else {
                    doc_index + 1
                }
            },
            CursorSubstitutionPolicy::LineEndingMarker => {
                if boundary < display_len {
                    doc_index
                } else {
                    doc_index + 1
                }
            },
        };
        display_to_doc.push(doc_cursor);
        boundary = boundary + 1;
        assert(display_to_doc@ =~= start + Seq::new(
            (boundary - 1) as nat,
            |k: int| boundary_cursor(doc_index as int, k + 1, display_len as int, policy) as usize,
        ));
    }
}

} // verus!

verus! {

/// With control characters shown, mapping a document cursor to its painted
/// boundary and back gives the same document cursor.
pub proof fn display_cursor_round_trip(s: Seq<char>, i: nat)
    requires
        i <= s.len(),
        2 * s.len() + 2 < usize::MAX,
    ensures
        lookup_or_last(
            cursor_prefix(s, s.len()),
            lookup_or_last(display_offsets(s, s.len()), i as int) as int,
        ) == i,
{
    let n = s.len();
    lemma_prefix_lengths(s, i);
    lemma_prefix_lengths(s, n);
    lemma_display_prefix_monotone(s, i, n);
    let k = display_prefix(s, i).len() as int;
    assert(display_offsets(s, n)[i as int] == k);
    lemma_cursor_prefix_extends(s, i, n, k);
}

/// With control characters shown, the map back to the document has one
/// entry per painted boundary: one more than the painted characters.
pub proof fn display_map_covers_painted_text(s: Seq<char>)
    requires
        2 * s.len() + 2 < usize::MAX,
    ensures
        cursor_prefix(s, s.len()).len() == display_prefix(s, s.len()).len() + 1,
{
    lemma_prefix_lengths(s, s.len());
}

/// Painted boundaries grow with the document cursor, by at least one cell per
/// character.
pub proof fn display_offsets_increase(s: Seq<char>, i: nat, j: nat)
    requires
        i <= j <= s.len(),
        2 * s.len() + 2 < usize::MAX,
    ensures
        display_offsets(s, s.len())[i as int] + (j - i) <= display_offsets(s, s.len())[j as int],
{
    lemma_display_prefix_monotone(s, i, j);
    lemma_prefix_lengths(s, j);
    lemma_prefix_lengths(s, i);
}

} // verus!

verus! {

/// Composition of a replacement-preview map (document to projected text) with
/// a control-character map (projected text to painted text).
pub open spec fn composed_view(preview: DisplayTextMapView, display: DisplayTextMapView) -> DisplayTextMapView {
    DisplayTextMapView {
        doc_to_display: preview.doc_to_display.map_values(|c: usize| lookup_or_last(display.doc_to_display, c as int)),
        display_to_doc: display.display_to_doc.map_values(|c: usize| lookup_or_last(preview.display_to_doc, c as int)),
    }
}

fn compose_table(first: &Vec<usize>, second: &Vec<usize>) -> (table: Vec<usize>)
    ensures
        table@ == first@.map_values(|c: usize| lookup_or_last(second@, c as int)),
{
    let mut table: Vec<usize> = Vec::new();
    let mut i: usize = 0;
    while i < first.len()
        invariant
            i <= first.len(),
            table@ == first@.take(i as int).map_values(|c: usize| lookup_or_last(second@, c as int)),
        decreases first.len() - i,
    {
        table.push(get_or_last(second, first[i]));
        i = i + 1;
        assert(table@ =~= first@.take(i as int).map_values(|c: usize| lookup_or_last(second@, c as int)));
    }
    assert(first@.take(i as int) =~= first@);
    table
}

/// Chains the preview map and the control-character map; with only one of
/// them, that one; with neither, `None`.
pub fn compose_display_maps(
    preview_map: Option<&DisplayTextMap>,
    display_map: Option<&DisplayTextMap>,
) -> (map: Option<DisplayTextMap>)
    ensures
        match (preview_map, display_map) {
            (None, None) => map is None,
            (Some(p), None) => map is Some && map->0@ == p@,
            (None, Some(d)) => map is Some && map->0@ == d@,
            (Some(p), Some(d)) => map is Some && map->0@ == composed_view(p@, d@),
        },
{
    match (preview_map, display_map) {
        (None, None) => None,
        (Some(map), None) => Some(map.clone()),
        (None, Some(map)) => Some(map.clone()),
        (Some(preview), Some(display)) => {
            let doc_to_display = compose_table(&preview.doc_to_display, &display.doc_to_display);
            let display_to_doc = compose_table(&display.display_to_doc, &preview.display_to_doc);
            Some(DisplayTextMap { doc_to_display, display_to_doc })
        },
    }
}

/// The drawable spans of `ranges` under `m`, in order, skipping those that paint nothing.
pub open spec fn displayed_ranges(m: DisplayTextMapView, ranges: Seq<std::ops::Range<usize>>) -> Seq<std::ops::Range<usize>>
    decreases ranges.len(),
{
    if ranges.len() == 0 {
        Seq::empty()
    } else {
        let rest = displayed_ranges(m, ranges.drop_last());
        let r = ranges.last();
        let start = lookup_or_last(m.doc_to_display, r.start as int);
        let end = lookup_or_last(m.doc_to_display, r.end as int);
        if start < end {
            rest.push(start..end)
        } else {
            rest
        }
    }
}

/// Search highlights moved into painted coordinates; without a map they are copied.
pub fn display_search_highlights(
    highlights: &crate::highlights::SearchHighlightState,
    map: Option<&DisplayTextMap>,
) -> (shown: crate::highlights::SearchHighlightState)
    ensures
        shown.active_range_index == highlights.active_range_index,
        map is None ==> shown.ranges@ == highlights.ranges@,
        map is Some ==> shown.ranges@ == displayed_ranges(map->0@, highlights.ranges@),
{
    let mut ranges: Vec<std::ops::Range<usize>> = Vec::new();
    let mut i: usize = 0;
    while i < highlights.ranges.len()
        invariant
            i <= highlights.ranges.len(),
            map is None ==> ranges@ == highlights.ranges@.take(i as int),
            map is Some ==> ranges@ == displayed_ranges(map->0@, highlights.ranges@.take(i as int)),
        decreases highlights.ranges.len() - i,
    {
        let range = crate::highlights::copy_range(&highlights.ranges[i]);
        proof {
            assert(highlights.ranges@.take(i + 1).drop_last() =~= highlights.ranges@.take(i as int));
        }
        match map {
            None => {
                ranges.push(range);
            },
            Some(m) => {
                match m.doc_range_to_display(range) {
                    Some(shown) => ranges.push(shown),
                    None => {},
                }
            },
        }
        i = i + 1;
        assert(map is None ==> ranges@ =~= highlights.ranges@.take(i as int));
    }
    assert(highlights.ranges@.take(i as int) =~= highlights.ranges@);
    crate::highlights::SearchHighlightState { ranges, active_range_index: highlights.active_range_index }
}

/// The painted span of the selection: mapped when there is a map, unchanged
/// without one, and `None` when there is no selection.
pub fn display_selection_highlight(
    selection: Option<std::ops::Range<usize>>,
    map: Option<&DisplayTextMap>,
) -> (shown: Option<std::ops::Range<usize>>)
    ensures
        match (selection, map) {
            (Some(r), Some(m)) => {
                let start = lookup_or_last(m@.doc_to_display, r.start as int);
                let end = lookup_or_last(m@.doc_to_display, r.end as int);
                if start < end {
                    shown is Some && shown->0.start == start && shown->0.end == end
                } else {
                    shown is None
                }
            },
            (Some(r), None) => shown is Some && shown->0.start == r.start && shown->0.end == r.end,
            (None, _) => shown is None,
        },
{
    match (selection, map) {
        (Some(range), Some(map)) => map.doc_range_to_display(range),
        (selection, None) => selection,
        (None, Some(_)) => None,
    }
}

} // verus!

verus! {

/// The projected text of a slice with pending replacements applied, and its map.
pub struct PreviewTextSlice {
    pub text: String,
    pub map: Option<DisplayTextMap>,
}

/// A replacement clipped to the slice: slice-local start and end, and the
/// index of its preview entry.
pub type ClippedEntry = (usize, usize, usize);

/// The entries that overlap the slice, clipped to it and made slice-local, in
/// their original order.
pub open spec fn clipped_entries(ranges: Seq<std::ops::Range<usize>>, slice: std::ops::Range<usize>) -> Seq<ClippedEntry>
    decreases ranges.len(),
{
    if ranges.len() == 0 {
        Seq::empty()
    } else {
        let rest = clipped_entries(ranges.drop_last(), slice);
        let r = ranges.last();
        let start = if r.start >= slice.start { r.start } else { slice.start };
        let end = if r.end <= slice.end { r.end } else { slice.end };
        if start < end {
            rest.push(((start - slice.start) as usize, (end - slice.start) as usize, (ranges.len() - 1) as usize))
        } else {
            rest
        }
    }
}

/// Position at which `x` enters the start-ordered `sorted`: after every entry
/// that starts no later than it.
pub open spec fn insertion_point(sorted: Seq<ClippedEntry>, x: ClippedEntry) -> int
    decreases sorted.len(),
{
    if sorted.len() == 0 {
        0
    } else if sorted.last().0 <= x.0 {
        sorted.len() as int
    } else {
        insertion_point(sorted.drop_last(), x)
    }
}

/// Stable ordering of entries by start.
pub open spec fn sorted_by_start(entries: Seq<ClippedEntry>) -> Seq<ClippedEntry>
    decreases entries.len(),
{
    if entries.len() == 0 {
        Seq::empty()
    } else {
        let sorted = sorted_by_start(entries.drop_last());
        sorted.insert(insertion_point(sorted, entries.last()), entries.last())
    }
}

/// The projection built so far: projected text and the two cursor tables.
pub struct Projection {
    pub text: Seq<char>,
    pub doc_to_display: Seq<usize>,
    pub display_to_doc: Seq<usize>,
}

/// Copies original characters `a..b` into the projection.
pub open spec fn copy_segment(p: Projection, orig: Seq<char>, a: int, b: int) -> Projection {
    Projection {
        text: p.text + orig.subrange(a, b),
        doc_to_display: Seq::new(p.doc_to_display.len(), |j: int|
            if a <= j < b { (p.text.len() + (j - a)) as usize } else { p.doc_to_display[j] }),
        display_to_doc: p.display_to_doc + Seq::new((b - a) as nat, |k: int| (a + k + 1) as usize),
    }
}

/// Puts `repl` in place of original characters `start..end` (of `n`).
pub open spec fn replace_segment(p: Projection, start: int, end: int, n: int, repl: Seq<char>) -> Projection {
    Projection {
        text: p.text + repl,
        doc_to_display: Seq::new(p.doc_to_display.len(), |j: int|
            if j == start {
                p.text.len() as usize
            } else if start < j <= (if end < n { end } else { n }) {
                (p.text.len() + repl.len()) as usize
            } else {
                p.doc_to_display[j]
            }),
        display_to_doc: p.display_to_doc + Seq::new(repl.len(), |k: int|
            if k + 1 == repl.len() { end as usize } else { start as usize }),
    }
}

/// Applies the start-ordered entries from `k` on; an entry that starts before
/// the end of the previous applied one is skipped. Returns the projection and
/// the original position reached.
pub open spec fn project_entries(
    orig: Seq<char>,
    entries: Seq<ClippedEntry>,
    repls: Seq<Seq<char>>,
    k: int,
    p: Projection,
    cursor: int,
) -> (Projection, int)
    decreases entries.len() - k,
{
    if k >= entries.len() || k < 0 {
        (p, cursor)
    } else {
        let (start, end, idx) = entries[k];
        if (start as int) < cursor {
            project_entries(orig, entries, repls, k + 1, p, cursor)
        } else {
            let copied = copy_segment(p, orig, cursor, start as int);
            let replaced = replace_segment(copied, start as int, end as int, orig.len() as int, repls[idx as int]);
            project_entries(orig, entries, repls, k + 1, replaced, end as int)
        }
    }
}

/// The whole projection of `orig` with the given entries applied.
pub open spec fn projection(orig: Seq<char>, entries: Seq<ClippedEntry>, repls: Seq<Seq<char>>) -> Projection {
    let start = Projection {
        text: Seq::empty(),
        doc_to_display: Seq::new(orig.len() + 1, |j: int| 0usize),
        display_to_doc: seq![0usize],
    };
    let (p, cursor) = project_entries(orig, entries, repls, 0, start, 0);
    let copied = if cursor <= orig.len() { copy_segment(p, orig, cursor, orig.len() as int) } else { p };
    Projection {
        text: copied.text,
        doc_to_display: copied.doc_to_display.update(orig.len() as int, copied.text.len() as usize),
        display_to_doc: copied.display_to_doc,
    }
}

/// The replacement texts of a preview, entry by entry.
pub open spec fn replacement_texts(entries: Seq<crate::highlights::SearchReplacementPreviewEntry>) -> Seq<Seq<char>> {
    entries.map_values(|e: crate::highlights::SearchReplacementPreviewEntry| e.replacement@)
}

/// The preview's ranges, entry by entry.
pub open spec fn replacement_ranges(entries: Seq<crate::highlights::SearchReplacementPreviewEntry>) -> Seq<std::ops::Range<usize>> {
    entries.map_values(|e: crate::highlights::SearchReplacementPreviewEntry| e.range)
}

fn clip_entries(
    entries: &Vec<crate::highlights::SearchReplacementPreviewEntry>,
    slice_range: &std::ops::Range<usize>,
) -> (clipped: Vec<ClippedEntry>)
    ensures
        clipped@ == clipped_entries(replacement_ranges(entries@), *slice_range),
        forall|k: int| 0 <= k < clipped@.len() ==> (#[trigger] clipped@[k]).0 < clipped@[k].1
            && clipped@[k].1 <= slice_range.end - slice_range.start && clipped@[k].2 < entries@.len(),
{
    let mut clipped: Vec<ClippedEntry> = Vec::new();
    let mut i: usize = 0;
    while i < entries.len()
        invariant
            i <= entries.len(),
            clipped@ == clipped_entries(replacement_ranges(entries@).take(i as int), *slice_range),
            forall|k: int| 0 <= k < clipped@.len() ==> (#[trigger] clipped@[k]).0 < clipped@[k].1
                && clipped@[k].1 <= slice_range.end - slice_range.start && clipped@[k].2 < i,
        decreases entries.len() - i,
    {
        let range = &entries[i].range;
        let start = if range.start >= slice_range.start { range.start } else { slice_range.start };
        let end = if range.end <= slice_range.end { range.end } else { slice_range.end };
        proof {
            assert(replacement_ranges(entries@).take(i + 1).drop_last() =~= replacement_ranges(entries@).take(i as int));
        }
        if start < end {
            clipped.push((start - slice_range.start, end - slice_range.start, i));
        }
        i = i + 1;
    }
    assert(replacement_ranges(entries@).take(i as int) =~= replacement_ranges(entries@));
    clipped
}

proof fn lemma_insertion_point_bounds(sorted: Seq<ClippedEntry>, x: ClippedEntry)
    ensures
        0 <= insertion_point(sorted, x) <= sorted.len(),
    decreases sorted.len(),
{
    if sorted.len() > 0 && sorted.last().0 > x.0 {
        lemma_insertion_point_bounds(sorted.drop_last(), x);
    }
}

fn find_insertion_point(sorted: &Vec<ClippedEntry>, x: ClippedEntry) -> (pos: usize)
    ensures
        pos == insertion_point(sorted@, x),
{
    let mut pos = sorted.len();
    assert(sorted@.take(pos as int) =~= sorted@);
    while pos > 0 && sorted[pos - 1].0 > x.0
        invariant
            pos <= sorted.len(),
            insertion_point(sorted@.take(pos as int), x) == insertion_point(sorted@, x),
        decreases pos,
    {
        proof {
            assert(sorted@.take(pos as int).drop_last() =~= sorted@.take(pos - 1));
        }
        pos = pos - 1;
    }
    proof {
        if pos > 0 {
            assert(sorted@.take(pos as int).last() == sorted@[pos - 1]);
        }
        lemma_insertion_point_bounds(sorted@.take(pos as int), x);
    }
    pos
}

fn sort_entries_by_start(entries: &Vec<ClippedEntry>) -> (sorted: Vec<ClippedEntry>)
    ensures
        sorted@ == sorted_by_start(entries@),
{
    let mut sorted: Vec<ClippedEntry> = Vec::new();
    let mut i: usize = 0;
    while i < entries.len()
        invariant
            i <= entries.len(),
            sorted@ == sorted_by_start(entries@.take(i as int)),
        decreases entries.len() - i,
    {
        let x = entries[i];
        let pos = find_insertion_point(&sorted, x);
        proof {
            lemma_insertion_point_bounds(sorted@, x);
            assert(entries@.take(i + 1).drop_last() =~= entries@.take(i as int));
        }
        sorted.insert(pos, x);
        i = i + 1;
    }
    assert(entries@.take(i as int) =~= entries@);
    sorted
}

} // verus!

verus! {

/// Every entry starts before it ends, ends within `bound`, and refers to one of `count` entries.
pub open spec fn entries_within(es: Seq<ClippedEntry>, bound: int, count: int) -> bool {
    forall|k: int| 0 <= k < es.len() ==> (#[trigger] es[k]).0 < es[k].1 && es[k].1 <= bound && es[k].2 < count
}

proof fn lemma_sorted_entries_within(es: Seq<ClippedEntry>, bound: int, count: int)
    requires
        entries_within(es, bound, count),
    ensures
        entries_within(sorted_by_start(es), bound, count),
        sorted_by_start(es).len() == es.len(),
    decreases es.len(),
{
    if es.len() > 0 {
        let rest = es.drop_last();
        assert(entries_within(rest, bound, count)) by {
            assert forall|k: int| 0 <= k < rest.len() implies (#[trigger] rest[k]).0 < rest[k].1 && rest[k].1 <= bound && rest[k].2 < count by {
                assert(rest[k] == es[k]);
            }
        }
        lemma_sorted_entries_within(rest, bound, count);
        let sorted = sorted_by_start(rest);
        let x = es.last();
        lemma_insertion_point_bounds(sorted, x);
        let pos = insertion_point(sorted, x);
        let ins = sorted.insert(pos, x);
        assert forall|k: int| 0 <= k < ins.len() implies (#[trigger] ins[k]).0 < ins[k].1 && ins[k].1 <= bound && ins[k].2 < count by {
            if k < pos {
                assert(ins[k] == sorted[k]);
            } else if k == pos {
                assert(ins[k] == x);
            } else {
                assert(ins[k] == sorted[k - 1]);
            }
        }
    }
}

/// The exec tables viewed as a projection.
pub open spec fn projection_of(text: Seq<char>, doc_to_display: Seq<usize>, display_to_doc: Seq<usize>) -> Projection {
    Projection { text, doc_to_display, display_to_doc }
}

/// Copies original characters `start..end` into the projection.
pub fn copy_original_chars(
    original_chars: &[char],
    start: usize,
    end: usize,
    projected: &mut Vec<char>,
    doc_to_display: &mut Vec<usize>,
    display_to_doc: &mut Vec<usize>,
    projected_cursor: &mut usize,
)
    requires
        start <= end <= original_chars@.len(),
        old(doc_to_display)@.len() == original_chars@.len() + 1,
        *old(projected_cursor) == old(projected)@.len(),
    ensures
        projection_of(final(projected)@, final(doc_to_display)@, final(display_to_doc)@) == copy_segment(
            projection_of(old(projected)@, old(doc_to_display)@, old(display_to_doc)@),
            original_chars@,
            start as int,
            end as int,
        ),
        *final(projected_cursor) == final(projected)@.len(),
{
    let ghost before = projection_of(projected@, doc_to_display@, display_to_doc@);
    proof {
        let q = copy_segment(before, original_chars@, start as int, start as int);
        assert(q.text =~= before.text);
        assert(q.doc_to_display =~= before.doc_to_display);
        assert(q.display_to_doc =~= before.display_to_doc);
    }
    let mut index = start;
    while index < end
        invariant
            start <= index <= end <= original_chars@.len(),
            doc_to_display@.len() == original_chars@.len() + 1,
            *projected_cursor == projected@.len(),
            projection_of(projected@, doc_to_display@, display_to_doc@) == copy_segment(
                before, original_chars@, start as int, index as int),
        decreases end - index,
    {
        doc_to_display.set(index, *projected_cursor);
        projected.push(original_chars[index]);
        *projected_cursor = projected.len();
        display_to_doc.push(index + 1);
        index = index + 1;
        proof {
            let p = projection_of(projected@, doc_to_display@, display_to_doc@);
            let q = copy_segment(before, original_chars@, start as int, index as int);
            assert(p.text =~= q.text);
            assert(p.doc_to_display =~= q.doc_to_display);
            assert(p.display_to_doc =~= q.display_to_doc);
        }
    }
}

/// Puts `replacement` in place of original characters `start..end`.
fn apply_replacement(
    replacement: &[char],
    start: usize,
    end: usize,
    original_len: usize,
    projected: &mut Vec<char>,
    doc_to_display: &mut Vec<usize>,
    display_to_doc: &mut Vec<usize>,
    projected_cursor: &mut usize,
)
    requires
        start < end,
        start <= original_len < usize::MAX,
        old(doc_to_display)@.len() == original_len + 1,
        *old(projected_cursor) == old(projected)@.len(),
    ensures
        projection_of(final(projected)@, final(doc_to_display)@, final(display_to_doc)@) == replace_segment(
            projection_of(old(projected)@, old(doc_to_display)@, old(display_to_doc)@),
            start as int,
            end as int,
            original_len as int,
            replacement@,
        ),
        *final(projected_cursor) == final(projected)@.len(),
        final(doc_to_display)@.len() == original_len + 1,
{
    let ghost before = projection_of(projected@, doc_to_display@, display_to_doc@);
    doc_to_display.set(start, *projected_cursor);
    let replacement_len = replacement.len();
    let mut boundary: usize = 0;
    while boundary < replacement_len
        invariant
            boundary <= replacement_len == replacement@.len(),
            *projected_cursor == projected@.len(),
            projected@ == before.text + replacement@.take(boundary as int),
            display_to_doc@ == before.display_to_doc + Seq::new(boundary as nat, |k: int|
                if k + 1 == replacement_len { end } else { start }),
            doc_to_display@ == before.doc_to_display.update(start as int, before.text.len() as usize),
        decreases replacement_len - boundary,
    {
        projected.push(replacement[boundary]);
        *projected_cursor = projected.len();
        if boundary + 1 == replacement_len {
            display_to_doc.push(end);
        } else {
            display_to_doc.push(start);
        }
        boundary = boundary + 1;
        assert(projected@ =~= before.text + replacement@.take(boundary as int));
        assert(display_to_doc@ =~= before.display_to_doc + Seq::new(boundary as nat, |k: int|
            if k + 1 == replacement_len { end } else { start }));
    }
    assert(replacement@.take(boundary as int) =~= replacement@);
    let last = if end < original_len { end } else { original_len };
    let mut j = start + 1;
    while j <= last
        invariant
            start + 1 <= j <= last + 1,
            last <= original_len < usize::MAX,
            last == (if end < original_len { end } else { original_len }),
            doc_to_display@.len() == original_len + 1,
            *projected_cursor == projected@.len(),
            projected@ == before.text + replacement@,
            forall|i: int| 0 <= i < doc_to_display@.len() ==> #[trigger] doc_to_display@[i] == if i == start {
                before.text.len() as usize
            } else if start < i < j {
                (before.text.len() + replacement@.len()) as usize
            } else {
                before.doc_to_display[i]
            },
        decreases last + 1 - j,
    {
        doc_to_display.set(j, *projected_cursor);
        j = j + 1;
    }
    proof {
        let p = projection_of(projected@, doc_to_display@, display_to_doc@);
        let q = replace_segment(before, start as int, end as int, original_len as int, replacement@);
        assert(p.text =~= q.text);
        assert(p.doc_to_display =~= q.doc_to_display);
        assert(p.display_to_doc =~= q.display_to_doc);
    }
}

} // verus!

verus! {

/// Every replacement that the preview applies to the slice (clipped to it,
/// made slice-local, taken in start order, skipping those that start before
/// the end of the last one applied) starts within the slice's text of `len`
/// characters; without a preview there is nothing to apply.
pub open spec fn applied_within_text(
    preview: Option<&crate::highlights::SearchReplacementPreview>,
    slice_range: std::ops::Range<usize>,
    len: int,
) -> bool {
    match preview {
        Some(p) => starts_within(
            applied_entries(sorted_by_start(clipped_entries(replacement_ranges(p.entries@), slice_range)), 0),
            len,
        ),
        None => true,
    }
}

/// Every entry of `es` starts at or before `len`.
pub open spec fn starts_within(es: Seq<ClippedEntry>, len: int) -> bool {
    forall|i: int| 0 <= i < es.len() ==> (#[trigger] es[i]).0 <= len
}

/// Projects pending replacements into a slice of document text, keeping the
/// original coordinates reachable through the map. Entries are clipped to
/// `slice_range`, made slice-local and taken in (stable) start order; an entry
/// that overlaps an earlier applied one is skipped. Without a preview, or with
/// an empty one, the text is copied and there is no map.
pub fn preview_text_slice(
    text: &str,
    slice_range: std::ops::Range<usize>,
    preview: Option<&crate::highlights::SearchReplacementPreview>,
) -> (slice: PreviewTextSlice)
    requires
        text@.len() < usize::MAX,
        applied_within_text(preview, slice_range, text@.len() as int),
    ensures
        match preview {
            Some(p) if p.entries@.len() > 0 => {
                let pr = projection(
                    text@,
                    sorted_by_start(clipped_entries(replacement_ranges(p.entries@), slice_range)),
                    replacement_texts(p.entries@),
                );
                &&& slice.text@ == pr.text
                &&& slice.map is Some
                &&& slice.map->0@.doc_to_display == pr.doc_to_display
                &&& slice.map->0@.display_to_doc == pr.display_to_doc
            },
            _ => slice.text@ == text@ && slice.map is None,
        },
{
    let original_chars = chars_of(text);
    let preview = match preview {
        Some(preview) if preview.entries.len() > 0 => preview,
        _ => {
            return PreviewTextSlice { text: string_of(original_chars.as_slice()), map: None };
        },
    };
    let original_len = original_chars.len();
    let ghost orig = text@;
    let ghost repls = replacement_texts(preview.entries@);
    let mut projected: Vec<char> = Vec::new();
    let mut doc_to_display: Vec<usize> = Vec::new();
    let mut fill: usize = 0;
    while fill <= original_len
        invariant
            fill <= original_len + 1,
            original_len < usize::MAX,
            doc_to_display@ == Seq::new(fill as nat, |j: int| 0usize),
        decreases original_len + 1 - fill,
    {
        doc_to_display.push(0);
        fill = fill + 1;
        assert(doc_to_display@ =~= Seq::new(fill as nat, |j: int| 0usize));
    }
    let mut display_to_doc: Vec<usize> = Vec::new();
    display_to_doc.push(0);
    let mut original_cursor: usize = 0;
    let mut projected_cursor: usize = 0;

    let clipped = clip_entries(&preview.entries, &slice_range);
    let entries = sort_entries_by_start(&clipped);
    proof {
        assert(entries_within(clipped@, slice_range.end - slice_range.start, preview.entries@.len() as int));
        lemma_sorted_entries_within(clipped@, slice_range.end - slice_range.start, preview.entries@.len() as int);
        assert(entries@.subrange(0, entries@.len() as int) =~= entries@);
    }
    let ghost start_projection = Projection {
        text: Seq::empty(),
        doc_to_display: Seq::new(orig.len() + 1, |j: int| 0usize),
        display_to_doc: seq![0usize],
    };
    assert(projection_of(projected@, doc_to_display@, display_to_doc@) == start_projection) by {
        assert(projected@ =~= Seq::<char>::empty());
        assert(display_to_doc@ =~= seq![0usize]);
    }
    let mut k: usize = 0;
    while k < entries.len()
        invariant
            original_chars@ == orig,
            original_len == orig.len() < usize::MAX,
            k <= entries.len(),
            entries_within(entries@, slice_range.end - slice_range.start, preview.entries@.len() as int),
            starts_within(applied_entries(entries@.subrange(k as int, entries@.len() as int), original_cursor as int),
                original_len as int),
            repls == replacement_texts(preview.entries@),
            doc_to_display@.len() == original_len + 1,
            projected_cursor == projected@.len(),
            project_entries(orig, entries@, repls, k as int,
                projection_of(projected@, doc_to_display@, display_to_doc@), original_cursor as int)
                == project_entries(orig, entries@, repls, 0, start_projection, 0),
        decreases entries.len() - k,
    {
        let (start, end, index) = entries[k];
        let ghost rest = entries@.subrange(k as int, entries@.len() as int);
        proof {
            assert(rest[0] == entries@[k as int]);
            assert(rest.drop_first() =~= entries@.subrange(k + 1, entries@.len() as int));
            assert(entries@[k as int].0 < entries@[k as int].1);
        }
        if start >= original_cursor {
            proof {
                let applied = applied_entries(rest, original_cursor as int);
                assert(applied[0] == rest[0]);
                assert(start <= original_len);
                let later = applied_entries(rest.drop_first(), end as int);
                assert forall|i: int| 0 <= i < later.len() implies (#[trigger] later[i]).0 <= original_len by {
                    assert(later[i] == applied[i + 1]);
                }
            }
            copy_original_chars(
                original_chars.as_slice(),
                original_cursor,
                start,
                &mut projected,
                &mut doc_to_display,
                &mut display_to_doc,
                &mut projected_cursor,
            );
            let replacement = chars_of(preview.entries[index].replacement.as_str());
            apply_replacement(
                replacement.as_slice(),
                start,
                end,
                original_len,
                &mut projected,
                &mut doc_to_display,
                &mut display_to_doc,
                &mut projected_cursor,
            );
            original_cursor = end;
        }
        k = k + 1;
    }
    if original_cursor <= original_len {
        copy_original_chars(
            original_chars.as_slice(),
            original_cursor,
            original_len,
            &mut projected,
            &mut doc_to_display,
            &mut display_to_doc,
            &mut projected_cursor,
        );
    }
    doc_to_display.set(original_len, projected_cursor);
    PreviewTextSlice {
        text: string_of(projected.as_slice()),
        map: Some(DisplayTextMap { doc_to_display, display_to_doc }),
    }
}

} // verus!

verus! {

/// A single pending replacement inside the slice shows the slice with that
/// range replaced by the replacement text; characters before the range keep
/// their painted positions, and those after it move by the change in length.
pub proof fn single_replacement_preview(
    text: Seq<char>,
    slice: std::ops::Range<usize>,
    range: std::ops::Range<usize>,
    repl: Seq<char>,
)
    requires
        slice.start <= range.start < range.end <= slice.end,
        slice.end <= slice.start + text.len(),
        text.len() + repl.len() < usize::MAX,
    ensures
        ({
            let a = range.start - slice.start;
            let b = range.end - slice.start;
            let p = projection(text, sorted_by_start(clipped_entries(seq![range], slice)), seq![repl]);
            &&& p.text == text.subrange(0, a) + repl + text.subrange(b, text.len() as int)
            &&& forall|j: int| 0 <= j <= a ==> p.doc_to_display[j] == j
            &&& forall|j: int| b <= j <= text.len() ==> p.doc_to_display[j] == j - b + a + repl.len()
        }),
{
    let a = (range.start - slice.start) as usize;
    let b = (range.end - slice.start) as usize;
    let n = text.len() as int;
    let x: ClippedEntry = (a, b, 0usize);
    let ranges = seq![range];
    assert(ranges.drop_last() =~= Seq::<std::ops::Range<usize>>::empty());
    assert(clipped_entries(ranges.drop_last(), slice) == Seq::<ClippedEntry>::empty());
    assert(clipped_entries(ranges, slice) =~= seq![x]);
    let entries = seq![x];
    assert(entries.drop_last() =~= Seq::<ClippedEntry>::empty());
    assert(sorted_by_start(entries.drop_last()) == Seq::<ClippedEntry>::empty());
    assert(insertion_point(Seq::<ClippedEntry>::empty(), x) == 0);
    assert(sorted_by_start(entries) =~= entries);
    let repls = seq![repl];
    let p0 = Projection {
        text: Seq::empty(),
        doc_to_display: Seq::new((n + 1) as nat, |j: int| 0usize),
        display_to_doc: seq![0usize],
    };
    let copied = copy_segment(p0, text, 0, a as int);
    let replaced = replace_segment(copied, a as int, b as int, n, repl);
    assert(project_entries(text, entries, repls, 1, replaced, b as int) == (replaced, b as int));
    assert(project_entries(text, entries, repls, 0, p0, 0) == (replaced, b as int));
    let last = copy_segment(replaced, text, b as int, n);
    let p = projection(text, entries, repls);
    assert(p.text == last.text);
    assert(copied.text =~= text.subrange(0, a as int));
    assert(last.text =~= text.subrange(0, a as int) + repl + text.subrange(b as int, n));
    assert forall|j: int| 0 <= j <= a implies p.doc_to_display[j] == j by {
        if j < n {
            assert(last.doc_to_display[j] == replaced.doc_to_display[j]);
        }
    }
    assert forall|j: int| b <= j <= n implies p.doc_to_display[j] == j - b + a + repl.len() by {
        if j < n {
            assert(last.doc_to_display[j] == (replaced.text.len() + (j - b)) as usize);
        }
    }
}

/// The entries, in order, that a projection applies from position `cursor`
/// on: each one that starts at or after the end of the last one applied.
pub open spec fn applied_entries(entries: Seq<ClippedEntry>, cursor: int) -> Seq<ClippedEntry>
    decreases entries.len(),
{
    if entries.len() == 0 {
        Seq::empty()
    } else if (entries[0].0 as int) < cursor {
        applied_entries(entries.drop_first(), cursor)
    } else {
        seq![entries[0]] + applied_entries(entries.drop_first(), entries[0].1 as int)
    }
}

/// `orig` from `cursor` on, with the range of each of `applied` replaced by
/// its replacement text: the original stretch before an entry, then the
/// entry's text, and so on, then the rest of `orig`.
pub open spec fn spliced(orig: Seq<char>, applied: Seq<ClippedEntry>, repls: Seq<Seq<char>>, cursor: int) -> Seq<char>
    decreases applied.len(),
{
    if applied.len() == 0 {
        orig.subrange(cursor, orig.len() as int)
    } else {
        orig.subrange(cursor, applied[0].0 as int) + repls[applied[0].2 as int]
            + spliced(orig, applied.drop_first(), repls, applied[0].1 as int)
    }
}

/// Document positions after each painted character of original characters
/// `a..b` kept in place: `a + 1`, ..., `b`.
pub open spec fn run_back(a: int, b: int) -> Seq<usize> {
    Seq::new(if a <= b { (b - a) as nat } else { 0 }, |k: int| (a + k + 1) as usize)
}

/// Document positions after each painted character of the replacement for
/// `entry`, `count` characters long: its start, except its end after the last.
pub open spec fn replacement_back(entry: ClippedEntry, count: nat) -> Seq<usize> {
    Seq::new(count, |k: int| if k + 1 == count { entry.1 } else { entry.0 })
}

/// The document position after each painted character of [`spliced`]: kept
/// original characters map past themselves, a replacement's characters map
/// to its start and its last one to its end.
pub open spec fn spliced_back(n: int, applied: Seq<ClippedEntry>, repls: Seq<Seq<char>>, cursor: int) -> Seq<usize>
    decreases applied.len(),
{
    if applied.len() == 0 {
        run_back(cursor, n)
    } else {
        run_back(cursor, applied[0].0 as int) + replacement_back(applied[0], repls[applied[0].2 as int].len())
            + spliced_back(n, applied.drop_first(), repls, applied[0].1 as int)
    }
}

proof fn lemma_project_entries_text(
    orig: Seq<char>,
    entries: Seq<ClippedEntry>,
    repls: Seq<Seq<char>>,
    k: int,
    p: Projection,
    cursor: int,
)
    requires
        entries_within(entries, orig.len() as int, repls.len() as int),
        0 <= k <= entries.len(),
        0 <= cursor <= orig.len(),
    ensures
        ({
            let (q, c) = project_entries(orig, entries, repls, k, p, cursor);
            &&& 0 <= c <= orig.len()
            &&& q.text + orig.subrange(c, orig.len() as int)
                == p.text + spliced(orig, applied_entries(entries.subrange(k, entries.len() as int), cursor), repls, cursor)
            &&& q.display_to_doc + run_back(c, orig.len() as int)
                == p.display_to_doc + spliced_back(orig.len() as int,
                    applied_entries(entries.subrange(k, entries.len() as int), cursor), repls, cursor)
        }),
    decreases entries.len() - k,
{
    let rest = entries.subrange(k, entries.len() as int);
    if k == entries.len() {
        assert(rest =~= Seq::<ClippedEntry>::empty());
    } else {
        assert(rest.drop_first() =~= entries.subrange(k + 1, entries.len() as int));
        let (start, end, idx) = entries[k];
        assert(rest[0] == entries[k]);
        assert(entries[k].0 < entries[k].1 <= orig.len() && entries[k].2 < repls.len());
        if (start as int) < cursor {
            lemma_project_entries_text(orig, entries, repls, k + 1, p, cursor);
        } else {
            let copied = copy_segment(p, orig, cursor, start as int);
            let replaced = replace_segment(copied, start as int, end as int, orig.len() as int, repls[idx as int]);
            lemma_project_entries_text(orig, entries, repls, k + 1, replaced, end as int);
            let later = spliced(orig, applied_entries(entries.subrange(k + 1, entries.len() as int), end as int),
                repls, end as int);
            let applied = applied_entries(rest, cursor);
            assert(applied == seq![rest[0]] + applied_entries(rest.drop_first(), end as int));
            assert(applied[0] == rest[0]);
            assert(applied.drop_first() =~= applied_entries(rest.drop_first(), end as int));
            assert(replaced.text =~= p.text + orig.subrange(cursor, start as int) + repls[idx as int]);
            assert(p.text + spliced(orig, applied, repls, cursor)
                =~= p.text + orig.subrange(cursor, start as int) + repls[idx as int] + later);
            let later_back = spliced_back(orig.len() as int,
                applied_entries(entries.subrange(k + 1, entries.len() as int), end as int), repls, end as int);
            assert(replaced.display_to_doc =~= p.display_to_doc + run_back(cursor, start as int)
                + replacement_back(rest[0], repls[idx as int].len()));
            assert(p.display_to_doc + spliced_back(orig.len() as int, applied, repls, cursor)
                =~= p.display_to_doc + run_back(cursor, start as int)
                    + replacement_back(rest[0], repls[idx as int].len()) + later_back);
        }
    }
}

/// The text of a preview is the original text with each applied replacement
/// in place of its range: the entries are taken in order, an entry that
/// starts before the end of the last applied one is left out, and the
/// original characters between and after them are kept.
pub proof fn preview_text_is_spliced(orig: Seq<char>, entries: Seq<ClippedEntry>, repls: Seq<Seq<char>>)
    requires
        entries_within(entries, orig.len() as int, repls.len() as int),
    ensures
        projection(orig, entries, repls).text == spliced(orig, applied_entries(entries, 0), repls, 0),
{
    let start = Projection {
        text: Seq::empty(),
        doc_to_display: Seq::new(orig.len() + 1, |j: int| 0usize),
        display_to_doc: seq![0usize],
    };
    lemma_project_entries_text(orig, entries, repls, 0, start, 0);
    assert(entries.subrange(0, entries.len() as int) =~= entries);
    let (q, c) = project_entries(orig, entries, repls, 0, start, 0);
    assert(start.text + spliced(orig, applied_entries(entries, 0), repls, 0)
        =~= spliced(orig, applied_entries(entries, 0), repls, 0));
}

/// The map from painted positions of a preview back to the document: 0 at
/// the start, then for each painted character the document position after
/// it, as [`spliced_back`] lists them.
pub proof fn preview_map_back_is_spliced(orig: Seq<char>, entries: Seq<ClippedEntry>, repls: Seq<Seq<char>>)
    requires
        entries_within(entries, orig.len() as int, repls.len() as int),
    ensures
        projection(orig, entries, repls).display_to_doc
            == seq![0usize] + spliced_back(orig.len() as int, applied_entries(entries, 0), repls, 0),
{
    let start = Projection {
        text: Seq::empty(),
        doc_to_display: Seq::new(orig.len() + 1, |j: int| 0usize),
        display_to_doc: seq![0usize],
    };
    lemma_project_entries_text(orig, entries, repls, 0, start, 0);
    assert(entries.subrange(0, entries.len() as int) =~= entries);
    let (q, c) = project_entries(orig, entries, repls, 0, start, 0);
    let copied = copy_segment(q, orig, c, orig.len() as int);
    assert(copied.display_to_doc =~= q.display_to_doc + run_back(c, orig.len() as int));
}

/// Painted position, counted from where the projection stands at document
/// position `cursor`, of document position `j`: kept characters move by the
/// replacements before them; a replaced range's start maps to where its
/// replacement begins and the rest of the range to where it ends.
pub open spec fn display_index(n: int, applied: Seq<ClippedEntry>, repls: Seq<Seq<char>>, cursor: int, j: int) -> int
    decreases applied.len(),
{
    if applied.len() == 0 {
        j - cursor
    } else {
        let a = applied[0];
        let r = repls[a.2 as int].len() as int;
        if j < a.0 {
            j - cursor
        } else if j <= a.1 {
            (a.0 - cursor) + if j == a.0 as int { 0 } else { r }
        } else {
            (a.0 - cursor) + r + display_index(n, applied.drop_first(), repls, a.1 as int, j)
        }
    }
}

proof fn lemma_applied_start_after(entries: Seq<ClippedEntry>, cursor: int)
    ensures
        applied_entries(entries, cursor).len() > 0 ==> applied_entries(entries, cursor)[0].0 >= cursor,
    decreases entries.len(),
{
    if entries.len() > 0 && (entries[0].0 as int) < cursor {
        lemma_applied_start_after(entries.drop_first(), cursor);
    }
}

proof fn lemma_display_index_at_cursor(n: int, applied: Seq<ClippedEntry>, repls: Seq<Seq<char>>, cursor: int)
    requires
        applied.len() > 0 ==> applied[0].0 >= cursor && applied[0].0 < applied[0].1,
    ensures
        display_index(n, applied, repls, cursor, cursor) == 0,
{
}

proof fn lemma_spliced_len(orig: Seq<char>, applied: Seq<ClippedEntry>, repls: Seq<Seq<char>>, cursor: int)
    requires
        0 <= cursor <= orig.len(),
        forall|i: int| 0 <= i < applied.len() ==> (#[trigger] applied[i]).0 < applied[i].1 <= orig.len()
            && applied[i].2 < repls.len(),
        forall|i: int| 0 <= i < applied.len() ==> (#[trigger] applied[i]).0 >= (if i == 0 { cursor } else { applied[i - 1].1 as int }),
    ensures
        spliced(orig, applied, repls, cursor).len() == display_index(orig.len() as int, applied, repls, cursor, orig.len() as int),
    decreases applied.len(),
{
    if applied.len() > 0 {
        let rest = applied.drop_first();
        assert forall|i: int| 0 <= i < rest.len() implies (#[trigger] rest[i]).0 < rest[i].1 <= orig.len()
            && rest[i].2 < repls.len() by {
            assert(rest[i] == applied[i + 1]);
        }
        assert forall|i: int| 0 <= i < rest.len() implies (#[trigger] rest[i]).0 >= (if i == 0 { applied[0].1 as int } else { rest[i - 1].1 as int }) by {
            assert(rest[i] == applied[i + 1]);
            if i > 0 {
                assert(rest[i - 1] == applied[i]);
            }
        }
        lemma_spliced_len(orig, rest, repls, applied[0].1 as int);
        if applied[0].1 == orig.len() {
            lemma_display_index_at_cursor(orig.len() as int, rest, repls, applied[0].1 as int);
        }
    }
}

proof fn lemma_applied_shape(entries: Seq<ClippedEntry>, bound: int, count: int, cursor: int)
    requires
        entries_within(entries, bound, count),
    ensures
        forall|i: int| 0 <= i < applied_entries(entries, cursor).len() ==>
            (#[trigger] applied_entries(entries, cursor)[i]).0 < applied_entries(entries, cursor)[i].1 <= bound
            && applied_entries(entries, cursor)[i].2 < count,
        forall|i: int| 0 <= i < applied_entries(entries, cursor).len() ==>
            (#[trigger] applied_entries(entries, cursor)[i]).0 >= (if i == 0 { cursor } else {
                applied_entries(entries, cursor)[i - 1].1 as int }),
    decreases entries.len(),
{
    if entries.len() > 0 {
        let rest = entries.drop_first();
        assert(entries_within(rest, bound, count)) by {
            assert forall|k: int| 0 <= k < rest.len() implies (#[trigger] rest[k]).0 < rest[k].1 && rest[k].1 <= bound
                && rest[k].2 < count by {
                assert(rest[k] == entries[k + 1]);
            }
        }
        if (entries[0].0 as int) < cursor {
            lemma_applied_shape(rest, bound, count, cursor);
            assert(applied_entries(entries, cursor) == applied_entries(rest, cursor));
        } else {
            lemma_applied_shape(rest, bound, count, entries[0].1 as int);
            let later = applied_entries(rest, entries[0].1 as int);
            let all = applied_entries(entries, cursor);
            assert(all == seq![entries[0]] + later);
            assert(all[0] == entries[0]);
            assert(entries[0].0 < entries[0].1 <= bound && entries[0].2 < count);
            assert forall|i: int| 0 <= i < all.len() implies (#[trigger] all[i]).0 < all[i].1 <= bound
                && all[i].2 < count && all[i].0 >= (if i == 0 { cursor } else { all[i - 1].1 as int }) by {
                if i > 0 {
                    assert(all[i] == later[i - 1]);
                    if i > 1 {
                        assert(all[i - 1] == later[i - 2]);
                    }
                }
            }
        }
    }
}

proof fn lemma_project_entries_positions(
    orig: Seq<char>,
    entries: Seq<ClippedEntry>,
    repls: Seq<Seq<char>>,
    k: int,
    p: Projection,
    cursor: int,
)
    requires
        entries_within(entries, orig.len() as int, repls.len() as int),
        0 <= k <= entries.len(),
        0 <= cursor <= orig.len(),
        p.doc_to_display.len() == orig.len() + 1,
    ensures
        ({
            let n = orig.len() as int;
            let (q, c) = project_entries(orig, entries, repls, k, p, cursor);
            let applied = applied_entries(entries.subrange(k, entries.len() as int), cursor);
            &&& cursor <= c <= n
            &&& q.doc_to_display.len() == n + 1
            &&& forall|j: int| 0 <= j < cursor ==> #[trigger] q.doc_to_display[j] == p.doc_to_display[j]
            &&& forall|j: int| cursor <= j < n ==> #[trigger] copy_segment(q, orig, c, n).doc_to_display[j]
                == (p.text.len() + display_index(n, applied, repls, cursor, j)) as usize
        }),
    decreases entries.len() - k,
{
    let n = orig.len() as int;
    let rest = entries.subrange(k, entries.len() as int);
    if k == entries.len() {
        assert(rest =~= Seq::<ClippedEntry>::empty());
    } else {
        assert(rest.drop_first() =~= entries.subrange(k + 1, entries.len() as int));
        let (start, end, idx) = entries[k];
        assert(rest[0] == entries[k]);
        assert(entries[k].0 < entries[k].1 <= orig.len() && entries[k].2 < repls.len());
        if (start as int) < cursor {
            lemma_project_entries_positions(orig, entries, repls, k + 1, p, cursor);
        } else {
            let copied = copy_segment(p, orig, cursor, start as int);
            let r = repls[idx as int];
            let replaced = replace_segment(copied, start as int, end as int, n, r);
            lemma_project_entries_positions(orig, entries, repls, k + 1, replaced, end as int);
            let (q, c) = project_entries(orig, entries, repls, k + 1, replaced, end as int);
            let later = applied_entries(entries.subrange(k + 1, entries.len() as int), end as int);
            let applied = applied_entries(rest, cursor);
            assert(applied == seq![rest[0]] + later);
            assert(applied[0] == rest[0]);
            assert(applied.drop_first() =~= later);
            assert(replaced.text.len() == p.text.len() + (start - cursor) + r.len());
            assert(entries_within(entries.subrange(k + 1, entries.len() as int), n, repls.len() as int)) by {
                let sub = entries.subrange(k + 1, entries.len() as int);
                assert forall|m: int| 0 <= m < sub.len() implies (#[trigger] sub[m]).0 < sub[m].1 && sub[m].1 <= n
                    && sub[m].2 < repls.len() by {
                    assert(sub[m] == entries[k + 1 + m]);
                }
            }
            lemma_applied_shape(entries.subrange(k + 1, entries.len() as int), n, repls.len() as int, end as int);
            if later.len() > 0 {
                assert(later[0].0 >= end && later[0].0 < later[0].1);
            }
            lemma_display_index_at_cursor(n, later, repls, end as int);
            assert forall|j: int| 0 <= j < cursor implies #[trigger] q.doc_to_display[j] == p.doc_to_display[j] by {
                assert(q.doc_to_display[j] == replaced.doc_to_display[j]);
            }
            assert forall|j: int| cursor <= j < n implies #[trigger] copy_segment(q, orig, c, n).doc_to_display[j]
                == (p.text.len() + display_index(n, applied, repls, cursor, j)) as usize by {
                if j < end {
                    assert(copy_segment(q, orig, c, n).doc_to_display[j] == q.doc_to_display[j]);
                    assert(q.doc_to_display[j] == replaced.doc_to_display[j]);
                    if j < start {
                        assert(replaced.doc_to_display[j] == copied.doc_to_display[j]);
                        assert(copied.doc_to_display[j] == (p.text.len() + (j - cursor)) as usize);
                        assert(display_index(n, applied, repls, cursor, j) == j - cursor);
                    } else if j == start {
                        assert(replaced.doc_to_display[j] == copied.text.len() as usize);
                        assert(display_index(n, applied, repls, cursor, j) == start - cursor);
                    } else {
                        assert(replaced.doc_to_display[j] == (copied.text.len() + r.len()) as usize);
                        assert(display_index(n, applied, repls, cursor, j) == (start - cursor) + r.len());
                    }
                } else {
                    assert(copy_segment(q, orig, c, n).doc_to_display[j]
                        == (replaced.text.len() + display_index(n, later, repls, end as int, j)) as usize);
                }
            }
        }
    }
}

/// The map from document positions of a preview to painted positions: a
/// kept character moves by the replacements before it, an applied
/// replacement's start maps to where its text begins and the rest of its
/// range to where it ends, and the end of the text to the end of the
/// painted text, as [`display_index`] counts them (as a `usize`, like every
/// entry of the map).
pub proof fn preview_map_is_spliced(orig: Seq<char>, entries: Seq<ClippedEntry>, repls: Seq<Seq<char>>, j: int)
    requires
        entries_within(entries, orig.len() as int, repls.len() as int),
        0 <= j <= orig.len(),
    ensures
        projection(orig, entries, repls).doc_to_display[j]
            == display_index(orig.len() as int, applied_entries(entries, 0), repls, 0, j) as usize,
{
    let n = orig.len() as int;
    let start = Projection {
        text: Seq::empty(),
        doc_to_display: Seq::new(orig.len() + 1, |j: int| 0usize),
        display_to_doc: seq![0usize],
    };
    lemma_project_entries_positions(orig, entries, repls, 0, start, 0);
    lemma_project_entries_text(orig, entries, repls, 0, start, 0);
    assert(entries.subrange(0, entries.len() as int) =~= entries);
    let (q, c) = project_entries(orig, entries, repls, 0, start, 0);
    let copied = copy_segment(q, orig, c, n);
    if j < n {
        assert(projection(orig, entries, repls).doc_to_display[j] == copied.doc_to_display[j]);
    } else {
        lemma_applied_shape(entries, n, repls.len() as int, 0);
        lemma_spliced_len(orig, applied_entries(entries, 0), repls, 0);
        assert(start.text + spliced(orig, applied_entries(entries, 0), repls, 0)
            =~= spliced(orig, applied_entries(entries, 0), repls, 0));
        assert(copied.text == q.text + orig.subrange(c, n));
    }
}

} // verus!


