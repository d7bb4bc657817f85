//! Windows paths as sequences of components, and the comparison of project
//! paths that ignores ASCII case, separator style and the verbatim (`\\?\`)
//! forms of drive and UNC prefixes.
//!
//! A path reaches the library already split into its components (its
//! prefix, root, `.`, `..` and normal parts), each part held by its encoded
//! bytes. Normalizing a path pushes the text of each component onto the
//! normalized first one, with the rules of a Windows path push, which
//! re-read the pushed text: a part with a prefix replaces the path, a part
//! with a root keeps only the prefix, and a part pushed onto a verbatim
//! path is split at both separators with `.` and `..` resolved.

use vstd::prelude::*;
use crate::seq_util::{bytes_equal, push_all};

verus! {

/// `\`
pub const SEP: u8 = 0x5C;

/// `/`
pub const ALT_SEP: u8 = 0x2F;

/// `:`
pub const COLON: u8 = 0x3A;

/// `.`
pub const DOT: u8 = 0x2E;

/// The kind of prefix a Windows path starts with.
#[derive(Debug)]
pub enum PathPrefix {
    /// `\\?\prefix`
    Verbatim(Vec<u8>),
    /// `\\?\UNC\server\share`
    VerbatimUnc(Vec<u8>, Vec<u8>),
    /// `\\?\C:`, holding the drive letter
    VerbatimDisk(u8),
    /// `\\.\device`
    DeviceNs(Vec<u8>),
    /// `\\server\share`
    Unc(Vec<u8>, Vec<u8>),
    /// `C:`, holding the drive letter
    Disk(u8),
}

/// One component of a path.
#[derive(Debug)]
pub enum PathComponent {
    /// The prefix, with its kind and the bytes it was written with.
    Prefix(PathPrefix, Vec<u8>),
    /// The root separator after the prefix, if any.
    RootDir,
    /// `.`
    CurDir,
    /// `..`
    ParentDir,
    /// A file or directory name.
    Normal(Vec<u8>),
}

/// The prefix as the path comparison of equality sees it.
pub enum PrefixView {
    Verbatim(Seq<u8>),
    VerbatimUnc(Seq<u8>, Seq<u8>),
    VerbatimDisk(u8),
    DeviceNs(Seq<u8>),
    Unc(Seq<u8>, Seq<u8>),
    Disk(u8),
}

/// A component as the path comparison of equality sees it: a prefix is
/// known by its kind and parts, not by the way it was written.
pub enum ComponentView {
    Prefix(PrefixView),
    RootDir,
    CurDir,
    ParentDir,
    Normal(Seq<u8>),
}

impl View for PathPrefix {
    type V = PrefixView;

    open spec fn view(&self) -> PrefixView {
        match self {
            PathPrefix::Verbatim(p) => PrefixView::Verbatim(p@),
            PathPrefix::VerbatimUnc(s, t) => PrefixView::VerbatimUnc(s@, t@),
            PathPrefix::VerbatimDisk(d) => PrefixView::VerbatimDisk(*d),
            PathPrefix::DeviceNs(p) => PrefixView::DeviceNs(p@),
            PathPrefix::Unc(s, t) => PrefixView::Unc(s@, t@),
            PathPrefix::Disk(d) => PrefixView::Disk(*d),
        }
    }
}

impl View for PathComponent {
    type V = ComponentView;

    open spec fn view(&self) -> ComponentView {
        match self {
            PathComponent::Prefix(p, _) => ComponentView::Prefix(p@),
            PathComponent::RootDir => ComponentView::RootDir,
            PathComponent::CurDir => ComponentView::CurDir,
            PathComponent::ParentDir => ComponentView::ParentDir,
            PathComponent::Normal(s) => ComponentView::Normal(s@),
        }
    }
}

/// A whole path as the comparison of equality sees it.
pub open spec fn path_view(path: Seq<PathComponent>) -> Seq<ComponentView> {
    path.map_values(|c: PathComponent| c@)
}

/// Whether `b` separates components: `\` or `/`.
pub open spec fn is_separator(b: u8) -> bool {
    b == SEP || b == ALT_SEP
}

/// The UTF-8 bytes of the character whose code point is `d` (as
/// `char::from(d)` gives it).
pub open spec fn latin1_char_bytes(d: u8) -> Seq<u8> {
    if d < 0x80 {
        seq![d]
    } else {
        seq![(0xC0 + d / 64) as u8, (0x80 + d % 64) as u8]
    }
}

/// A drive letter followed by a colon, such as `C:`.
pub open spec fn drive_text(d: u8) -> Seq<u8> {
    latin1_char_bytes(d) + seq![COLON]
}

/// `?`
pub const QUESTION: u8 = 0x3F;

/// The kinds of prefix the text of a Windows path can start with.
#[derive(Clone, Copy, PartialEq, Eq, Structural, Debug)]
pub enum PrefixClass {
    /// `\\?\prefix`
    Verbatim,
    /// `\\?\UNC\server\share`
    VerbatimUnc,
    /// `\\?\C:`
    VerbatimDisk,
    /// `\\.\device`
    DeviceNs,
    /// `\\server\share`
    Unc,
    /// `C:`
    Disk,
}

/// Whether a prefix of this kind is verbatim (written after `\\?\`).
pub open spec fn is_verbatim_class(k: PrefixClass) -> bool {
    k is Verbatim || k is VerbatimUnc || k is VerbatimDisk
}

/// Whether `b` ends a component: `\` always, `/` only outside a verbatim
/// path.
pub open spec fn splits_at(b: u8, verbatim: bool) -> bool {
    b == SEP || (!verbatim && b == ALT_SEP)
}

/// The first index at or after `from` that holds a byte that ends a
/// component, or the length of `s` when there is none.
pub open spec fn next_sep(s: Seq<u8>, from: int, verbatim: bool) -> int
    decreases s.len() - from,
{
    if from < 0 || from >= s.len() {
        s.len() as int
    } else if splits_at(s[from], verbatim) {
        from
    } else {
        next_sep(s, from + 1, verbatim)
    }
}

/// `next_sep` lies between `from` and the end of `s`.
pub proof fn lemma_next_sep_bounds(s: Seq<u8>, from: int, verbatim: bool)
    requires
        0 <= from <= s.len(),
    ensures
        from <= next_sep(s, from, verbatim) <= s.len(),
    decreases s.len() - from,
{
    if from < s.len() && !splits_at(s[from], verbatim) {
        lemma_next_sep_bounds(s, from + 1, verbatim);
    }
}

/// Whether `b` is an ASCII letter.
pub open spec fn is_ascii_alpha(b: u8) -> bool {
    (0x41 <= b <= 0x5A) || (0x61 <= b <= 0x7A)
}

/// The prefix the text `s` starts with, if any, with the index at which it
/// ends, as the platform parses a path:
/// - `\\?\` exactly (no `/` among these four bytes) starts a verbatim
///   prefix, in which only `\` separates: `\\?\UNC\server\share` (the
///   share and its separator only when the share is not empty), `\\?\C:`
///   when the drive is followed by a separator or nothing, else
///   `\\?\prefix` up to the next `\`;
/// - otherwise two separators followed by `.` and a separator start a
///   device prefix `\\.\device`, and two separators followed by a server,
///   a separator and a share, both not empty, start `\\server\share`;
/// - a letter followed by `:` is a drive prefix `C:`.
pub open spec fn parse_prefix(s: Seq<u8>) -> Option<(PrefixClass, int)> {
    if s.len() >= 2 && is_separator(s[0]) && is_separator(s[1]) {
        if s.len() >= 4 && s[0] == SEP && s[1] == SEP && s[2] == QUESTION && s[3] == SEP {
            if s.len() >= 8 && s[4] == 0x55u8 && s[5] == 0x4Eu8 && s[6] == 0x43u8 && is_separator(s[7]) {
                let server_end = next_sep(s, 8, true);
                if server_end < s.len() && next_sep(s, server_end + 1, true) > server_end + 1 {
                    Some((PrefixClass::VerbatimUnc, next_sep(s, server_end + 1, true)))
                } else {
                    Some((PrefixClass::VerbatimUnc, server_end))
                }
            } else if s.len() >= 6 && is_ascii_alpha(s[4]) && s[5] == COLON && (s.len() == 6
                || is_separator(s[6])) {
                Some((PrefixClass::VerbatimDisk, 6))
            } else {
                Some((PrefixClass::Verbatim, next_sep(s, 4, true)))
            }
        } else if s.len() >= 4 && s[2] == DOT && is_separator(s[3]) {
            Some((PrefixClass::DeviceNs, next_sep(s, 4, false)))
        } else {
            let server_end = next_sep(s, 2, false);
            if 2 < server_end < s.len() && next_sep(s, server_end + 1, false) > server_end + 1 {
                Some((PrefixClass::Unc, next_sep(s, server_end + 1, false)))
            } else {
                None
            }
        }
    } else if s.len() >= 2 && is_ascii_alpha(s[0]) && s[1] == COLON {
        Some((PrefixClass::Disk, 2))
    } else {
        None
    }
}

/// The index at which the prefix of `s` ends (0 when it has none).
pub open spec fn prefix_end(s: Seq<u8>) -> int {
    match parse_prefix(s) {
        Some((_, end)) => end,
        None => 0,
    }
}

/// Whether `s` starts with a verbatim prefix.
pub open spec fn is_verbatim_path(s: Seq<u8>) -> bool {
    match parse_prefix(s) {
        Some((k, _)) => is_verbatim_class(k),
        None => false,
    }
}

/// Whether `s` is a drive prefix and nothing else, such as `C:`.
pub open spec fn is_bare_drive(s: Seq<u8>) -> bool {
    match parse_prefix(s) {
        Some((k, end)) => k is Disk && end == s.len(),
        None => false,
    }
}

/// Whether a relative part pushed onto `base` is put after a `\`: `base`
/// is not empty, does not end with a separator and is not a bare drive.
pub open spec fn needs_separator(base: Seq<u8>) -> bool {
    base.len() > 0 && !is_separator(base.last()) && !is_bare_drive(base)
}

/// A component after the prefix of a path, as a push onto a verbatim path
/// rebuilds that path.
pub enum Piece {
    Root,
    Cur,
    Parent,
    Name(Seq<u8>),
}

/// The component that the text `t` between two separators stands for: none
/// for an empty text, `.` only in a verbatim path (elsewhere it is dropped),
/// `..`, or a name.
pub open spec fn classify(t: Seq<u8>, verbatim: bool) -> Seq<Piece> {
    if t.len() == 0 {
        Seq::empty()
    } else if t == seq![DOT] {
        if verbatim {
            seq![Piece::Cur]
        } else {
            Seq::empty()
        }
    } else if t == seq![DOT, DOT] {
        seq![Piece::Parent]
    } else {
        seq![Piece::Name(t)]
    }
}

/// The components of `s` from index `from` on, split where
/// [`splits_at`] says.
pub open spec fn pieces_from(s: Seq<u8>, from: int, verbatim: bool) -> Seq<Piece>
    decreases s.len() - from,
{
    if from < 0 || from >= s.len() {
        Seq::empty()
    } else {
        let end = next_sep(s, from, verbatim);
        let head = classify(s.subrange(from, end), verbatim);
        if end < s.len() {
            proof {
                lemma_next_sep_bounds(s, from, verbatim);
            }
            head + pieces_from(s, end + 1, verbatim)
        } else {
            head
        }
    }
}

/// The components after the prefix of a verbatim path `s`: a root when a
/// separator follows the prefix, then the parts split at `\`.
pub open spec fn verbatim_pieces(s: Seq<u8>) -> Seq<Piece> {
    let start = prefix_end(s);
    if start < s.len() && is_separator(s[start]) {
        seq![Piece::Root] + pieces_from(s, start + 1, true)
    } else {
        pieces_from(s, start, true)
    }
}

/// The components of a part without a prefix: a root when it starts with a
/// separator, then the parts split at either separator.
pub open spec fn part_pieces(p: Seq<u8>) -> Seq<Piece> {
    if p.len() > 0 && is_separator(p[0]) {
        seq![Piece::Root] + pieces_from(p, 1, false)
    } else {
        pieces_from(p, 0, false)
    }
}

/// One component of a pushed part applied to the components of a verbatim
/// path: a root drops everything after the prefix, `.` does nothing, `..`
/// drops a last name, a name is added.
pub open spec fn step(buf: Seq<Piece>, c: Piece) -> Seq<Piece> {
    match c {
        Piece::Root => seq![Piece::Root],
        Piece::Cur => buf,
        Piece::Parent => if buf.len() > 0 && buf.last() is Name {
            buf.drop_last()
        } else {
            buf
        },
        Piece::Name(_) => buf.push(c),
    }
}

/// The components `cs` applied in order.
pub open spec fn steps(buf: Seq<Piece>, cs: Seq<Piece>) -> Seq<Piece>
    decreases cs.len(),
{
    if cs.len() == 0 {
        buf
    } else {
        step(steps(buf, cs.drop_last()), cs.last())
    }
}

/// The text of a component.
pub open spec fn piece_text(c: Piece) -> Seq<u8> {
    match c {
        Piece::Root => seq![SEP],
        Piece::Cur => seq![DOT],
        Piece::Parent => seq![DOT, DOT],
        Piece::Name(t) => t,
    }
}

/// The components after a verbatim prefix written out: each one but a root
/// is preceded by `\` unless it follows a root.
pub open spec fn render_pieces(cs: Seq<Piece>) -> Seq<u8>
    decreases cs.len(),
{
    if cs.len() == 0 {
        Seq::empty()
    } else {
        let after_root = cs.len() >= 2 && cs[cs.len() - 2] is Root;
        render_pieces(cs.drop_last()) + (if !after_root && !(cs.last() is Root) {
            seq![SEP]
        } else {
            Seq::empty()
        }) + piece_text(cs.last())
    }
}

/// The text of `base` with `part` pushed onto it, as a Windows path push
/// does:
/// - a part with a prefix replaces `base`;
/// - onto a verbatim `base`, a part that is not empty is split into its
///   components, which are applied to those of `base` (`.` and `..`
///   resolved), and the result is written out after the prefix with `\`;
/// - a part that starts with a separator replaces all of `base` but its
///   prefix;
/// - any other part is added, after a `\` when [`needs_separator`] says so.
pub open spec fn pushed(base: Seq<u8>, part: Seq<u8>) -> Seq<u8> {
    if parse_prefix(part) is Some {
        part
    } else if is_verbatim_path(base) && part.len() > 0 {
        base.take(prefix_end(base)) + render_pieces(steps(verbatim_pieces(base), part_pieces(part)))
    } else if part.len() > 0 && is_separator(part[0]) {
        base.take(prefix_end(base)) + part
    } else if needs_separator(base) {
        base + seq![SEP] + part
    } else {
        base + part
    }
}

/// `parts` pushed onto `base` one after the other.
pub open spec fn pushed_all(base: Seq<u8>, parts: Seq<Seq<u8>>) -> Seq<u8>
    decreases parts.len(),
{
    if parts.len() == 0 {
        base
    } else {
        pushed(pushed_all(base, parts.drop_last()), parts.last())
    }
}

/// `\\server\share`, built by pushing the server and then the share onto
/// `\\`.
pub open spec fn unc_text(server: Seq<u8>, share: Seq<u8>) -> Seq<u8> {
    pushed(pushed(seq![SEP, SEP], server), share)
}

/// The text of a component as it is written.
pub open spec fn component_text(c: PathComponent) -> Seq<u8> {
    match c {
        PathComponent::Prefix(_, raw) => raw@,
        PathComponent::RootDir => seq![SEP],
        PathComponent::CurDir => seq![DOT],
        PathComponent::ParentDir => seq![DOT, DOT],
        PathComponent::Normal(s) => s@,
    }
}

/// The text a first component is compared by: a drive prefix, verbatim or
/// not, becomes `C:`; a UNC prefix, verbatim or not, becomes `\\` with the
/// server and then the share pushed onto it ([`unc_text`]); any other
/// component keeps its text.
pub open spec fn normalized_first(c: PathComponent) -> Seq<u8> {
    match c {
        PathComponent::Prefix(p, raw) => match p {
            PathPrefix::VerbatimDisk(d) => drive_text(d),
            PathPrefix::Disk(d) => drive_text(d),
            PathPrefix::VerbatimUnc(server, share) => unc_text(server@, share@),
            PathPrefix::Unc(server, share) => unc_text(server@, share@),
            _ => raw@,
        },
        _ => component_text(c),
    }
}

/// The texts of the components of `path`.
pub open spec fn component_texts(path: Seq<PathComponent>) -> Seq<Seq<u8>> {
    path.map_values(|c: PathComponent| component_text(c))
}

/// The text a path is compared by: its first component normalized, then
/// the text of each other component pushed onto it in turn.
pub open spec fn normalized_path(path: Seq<PathComponent>) -> Seq<u8> {
    if path.len() == 0 {
        Seq::empty()
    } else {
        pushed_all(normalized_first(path[0]), component_texts(path.subrange(1, path.len() as int)))
    }
}

/// `b` with ASCII upper-case letters made lower-case.
pub open spec fn ascii_lower(b: u8) -> u8 {
    if 0x41 <= b <= 0x5A {
        (b + 32) as u8
    } else {
        b
    }
}

/// Whether `a` and `b` are equal when ASCII letters are compared without
/// regard to case.
pub open spec fn eq_ignore_ascii_case(a: Seq<u8>, b: Seq<u8>) -> bool {
    &&& a.len() == b.len()
    &&& forall|i: int| 0 <= i < a.len() ==> ascii_lower(#[trigger] a[i]) == ascii_lower(b[i])
}

/// Whether two paths name the same project, by their normalized text.
pub open spec fn same_project_path(left: Seq<PathComponent>, right: Seq<PathComponent>) -> bool {
    eq_ignore_ascii_case(normalized_path(left), normalized_path(right))
}

/// Lower-cases one ASCII letter.
pub fn to_ascii_lower(b: u8) -> (r: u8)
    ensures
        r == ascii_lower(b),
{
    if 0x41 <= b && b <= 0x5A {
        b + 32
    } else {
        b
    }
}

/// Compares two byte strings, ignoring the case of ASCII letters.
pub fn bytes_eq_ignore_ascii_case(a: &[u8], b: &[u8]) -> (r: bool)
    ensures
        r == eq_ignore_ascii_case(a@, b@),
{
    if a.len() != b.len() {
        return false;
    }
    let n = a.len();
    let mut i: usize = 0;
    while i < n
        invariant
            n == a@.len(),
            n == b@.len(),
            i <= n,
            forall|j: int| 0 <= j < i ==> ascii_lower(#[trigger] a@[j]) == ascii_lower(b@[j]),
        decreases n - i,
    {
        if to_ascii_lower(a[i]) != to_ascii_lower(b[i]) {
            return false;
        }
        i = i + 1;
    }
    true
}

/// Appends the UTF-8 encoding of the character `char::from(d)`.
fn push_latin1_char(out: &mut Vec<u8>, d: u8)
    ensures
        final(out)@ == old(out)@ + latin1_char_bytes(d),
{
    if d < 0x80 {
        out.push(d);
        assert(out@ =~= old(out)@ + latin1_char_bytes(d));
    } else {
        out.push(0xC0 + d / 64);
        out.push(0x80 + d % 64);
        assert(out@ =~= old(out)@ + latin1_char_bytes(d));
    }
}

/// Appends the text of `c` as it is written.
fn push_component_text(out: &mut Vec<u8>, c: &PathComponent)
    ensures
        final(out)@ == old(out)@ + component_text(*c),
{
    match c {
        PathComponent::Prefix(_, raw) => push_all(out, raw.as_slice()),
        PathComponent::RootDir => out.push(SEP),
        PathComponent::CurDir => out.push(DOT),
        PathComponent::ParentDir => {
            out.push(DOT);
            out.push(DOT);
        },
        PathComponent::Normal(s) => push_all(out, s.as_slice()),
    }
    assert(out@ =~= old(out)@ + component_text(*c));
}

/// A component after the prefix of a path, held by its bytes.
enum PathPiece {
    Root,
    Cur,
    Parent,
    Name(Vec<u8>),
}

impl View for PathPiece {
    type V = Piece;

    closed spec fn view(&self) -> Piece {
        match self {
            PathPiece::Root => Piece::Root,
            PathPiece::Cur => Piece::Cur,
            PathPiece::Parent => Piece::Parent,
            PathPiece::Name(t) => Piece::Name(t@),
        }
    }
}

/// The components held by `v`.
spec fn pieces_view(v: Seq<PathPiece>) -> Seq<Piece> {
    v.map_values(|p: PathPiece| p@)
}

/// Whether `b` is `\` or `/`.
fn is_sep_byte(b: u8) -> (r: bool)
    ensures
        r == is_separator(b),
{
    b == SEP || b == ALT_SEP
}

/// Whether `b` is an ASCII letter.
fn is_alpha(b: u8) -> (r: bool)
    ensures
        r == is_ascii_alpha(b),
{
    (0x41 <= b && b <= 0x5A) || (0x61 <= b && b <= 0x7A)
}

/// The first index at or after `from` that ends a component, or the length
/// of `s`.
fn find_sep(s: &[u8], from: usize, verbatim: bool) -> (r: usize)
    requires
        from <= s@.len(),
    ensures
        r == next_sep(s@, from as int, verbatim),
        from <= r <= s@.len(),
{
    let mut i = from;
    while i < s.len() && !(s[i] == SEP || (!verbatim && s[i] == ALT_SEP))
        invariant
            from <= i <= s@.len(),
            next_sep(s@, i as int, verbatim) == next_sep(s@, from as int, verbatim),
        decreases s@.len() - i,
    {
        i = i + 1;
    }
    i
}

/// The prefix the text `s` starts with, and where it ends.
fn parse_prefix_of(s: &[u8]) -> (r: Option<(PrefixClass, usize)>)
    ensures
        parse_prefix(s@) == (match r {
            Some((k, end)) => Some((k, end as int)),
            None => None::<(PrefixClass, int)>,
        }),
        r matches Some((_, end)) ==> end <= s@.len(),
{
    let n = s.len();
    if n >= 2 && is_sep_byte(s[0]) && is_sep_byte(s[1]) {
        if n >= 4 && s[0] == SEP && s[1] == SEP && s[2] == QUESTION && s[3] == SEP {
            if n >= 8 && s[4] == 0x55 && s[5] == 0x4E && s[6] == 0x43 && is_sep_byte(s[7]) {
                let server_end = find_sep(s, 8, true);
                if server_end < n {
                    let share_end = find_sep(s, server_end + 1, true);
                    if share_end > server_end + 1 {
                        return Some((PrefixClass::VerbatimUnc, share_end));
                    }
                }
                Some((PrefixClass::VerbatimUnc, server_end))
            } else if n >= 6 && is_alpha(s[4]) && s[5] == COLON && (n == 6 || is_sep_byte(s[6])) {
                Some((PrefixClass::VerbatimDisk, 6))
            } else {
                Some((PrefixClass::Verbatim, find_sep(s, 4, true)))
            }
        } else if n >= 4 && s[2] == DOT && is_sep_byte(s[3]) {
            Some((PrefixClass::DeviceNs, find_sep(s, 4, false)))
        } else {
            let server_end = find_sep(s, 2, false);
            if 2 < server_end && server_end < n {
                let share_end = find_sep(s, server_end + 1, false);
                if share_end > server_end + 1 {
                    return Some((PrefixClass::Unc, share_end));
                }
            }
            None
        }
    } else if n >= 2 && is_alpha(s[0]) && s[1] == COLON {
        Some((PrefixClass::Disk, 2))
    } else {
        None
    }
}

/// The bytes of `s` from `from` up to `end`.
fn copy_range(s: &[u8], from: usize, end: usize) -> (r: Vec<u8>)
    requires
        from <= end <= s@.len(),
    ensures
        r@ == s@.subrange(from as int, end as int),
{
    let mut out: Vec<u8> = Vec::new();
    let mut i = from;
    while i < end
        invariant
            from <= i <= end <= s@.len(),
            out@ == s@.subrange(from as int, i as int),
        decreases end - i,
    {
        out.push(s[i]);
        assert(out@ =~= s@.subrange(from as int, i as int + 1));
        i = i + 1;
    }
    out
}

/// Appends the component that the bytes of `s` from `from` up to `end`
/// stand for, if any.
fn push_classified(out: &mut Vec<PathPiece>, s: &[u8], from: usize, end: usize, verbatim: bool)
    requires
        from <= end <= s@.len(),
    ensures
        pieces_view(final(out)@) == pieces_view(old(out)@) + classify(s@.subrange(from as int, end as int), verbatim),
{
    let ghost t = s@.subrange(from as int, end as int);
    let ghost before = pieces_view(out@);
    if end == from {
        assert(t.len() == 0);
    } else if end - from == 1 && s[from] == DOT {
        assert(t =~= seq![DOT]);
        if verbatim {
            out.push(PathPiece::Cur);
        }
    } else if end - from == 2 && s[from] == DOT && s[from + 1] == DOT {
        assert(t =~= seq![DOT, DOT]);
        out.push(PathPiece::Parent);
    } else {
        assert(t != seq![DOT]) by {
            if t == seq![DOT] {
                assert(t.len() == 1 && t[0] == DOT);
            }
        }
        assert(t != seq![DOT, DOT]) by {
            if t == seq![DOT, DOT] {
                assert(t.len() == 2 && t[0] == DOT && t[1] == DOT);
            }
        }
        out.push(PathPiece::Name(copy_range(s, from, end)));
    }
    assert(pieces_view(out@) =~= before + classify(t, verbatim));
}

/// Appends the components of `s` from `from` on.
fn push_pieces_from(out: &mut Vec<PathPiece>, s: &[u8], from: usize, verbatim: bool)
    requires
        from <= s@.len(),
    ensures
        pieces_view(final(out)@) == pieces_view(old(out)@) + pieces_from(s@, from as int, verbatim),
{
    let ghost start = pieces_view(out@);
    let n = s.len();
    let mut i = from;
    while i < n
        invariant
            n == s@.len(),
            from <= i <= n,
            pieces_view(out@) + pieces_from(s@, i as int, verbatim) == start + pieces_from(s@, from as int, verbatim),
        decreases n - i,
    {
        let end = find_sep(s, i, verbatim);
        let ghost before = pieces_view(out@);
        let ghost head = classify(s@.subrange(i as int, end as int), verbatim);
        let ghost old_rest = pieces_from(s@, i as int, verbatim);
        push_classified(out, s, i, end, verbatim);
        if end < n {
            assert(old_rest == head + pieces_from(s@, end as int + 1, verbatim));
            assert(before + old_rest =~= before + head + pieces_from(s@, end as int + 1, verbatim));
            i = end + 1;
        } else {
            assert(old_rest == head);
            assert(pieces_from(s@, n as int, verbatim) =~= Seq::<Piece>::empty());
            assert(before + old_rest =~= before + head + pieces_from(s@, n as int, verbatim));
            i = n;
        }
    }
    assert(pieces_from(s@, n as int, verbatim) =~= Seq::<Piece>::empty());
    assert(pieces_view(out@) + pieces_from(s@, n as int, verbatim) =~= pieces_view(out@));
}

/// Whether `p` is a root.
fn is_root(p: &PathPiece) -> (r: bool)
    ensures
        r == (p@ is Root),
{
    match p {
        PathPiece::Root => true,
        _ => false,
    }
}

/// Whether `p` is a name.
fn is_name(p: &PathPiece) -> (r: bool)
    ensures
        r == (p@ is Name),
{
    match p {
        PathPiece::Name(_) => true,
        _ => false,
    }
}

/// Copies a component.
fn clone_piece(p: &PathPiece) -> (r: PathPiece)
    ensures
        r@ == p@,
{
    match p {
        PathPiece::Root => PathPiece::Root,
        PathPiece::Cur => PathPiece::Cur,
        PathPiece::Parent => PathPiece::Parent,
        PathPiece::Name(t) => PathPiece::Name(clone_bytes(t)),
    }
}

/// Applies one component of a pushed part to `buf`.
fn apply_piece(buf: &mut Vec<PathPiece>, c: PathPiece)
    ensures
        pieces_view(final(buf)@) == step(pieces_view(old(buf)@), c@),
{
    let ghost before = pieces_view(buf@);
    let ghost cv = c@;
    match c {
        PathPiece::Root => {
            *buf = Vec::new();
            buf.push(PathPiece::Root);
            assert(pieces_view(buf@) =~= seq![Piece::Root]);
        },
        PathPiece::Cur => {},
        PathPiece::Parent => {
            let n = buf.len();
            if n > 0 && is_name(&buf[n - 1]) {
                buf.pop();
                assert(pieces_view(buf@) =~= before.drop_last());
            }
        },
        PathPiece::Name(t) => {
            buf.push(PathPiece::Name(t));
            assert(pieces_view(buf@) =~= before.push(cv));
        },
    }
}

/// Applies the components of `parts`, in order, to `buf`.
fn apply_pieces(buf: &mut Vec<PathPiece>, parts: &Vec<PathPiece>)
    ensures
        pieces_view(final(buf)@) == steps(pieces_view(old(buf)@), pieces_view(parts@)),
{
    let ghost start = pieces_view(buf@);
    let ghost all = pieces_view(parts@);
    let n = parts.len();
    let mut k: usize = 0;
    assert(all.take(0) =~= Seq::<Piece>::empty());
    while k < n
        invariant
            n == parts@.len(),
            all == pieces_view(parts@),
            k <= n,
            pieces_view(buf@) == steps(start, all.take(k as int)),
        decreases n - k,
    {
        let ghost next = all.take(k as int + 1);
        assert(next.drop_last() =~= all.take(k as int));
        assert(next.last() == parts@[k as int]@);
        apply_piece(buf, clone_piece(&parts[k]));
        k = k + 1;
    }
    assert(all.take(n as int) =~= all);
}

/// Appends the text of a component.
fn push_piece_text(out: &mut Vec<u8>, c: &PathPiece)
    ensures
        final(out)@ == old(out)@ + piece_text(c@),
{
    match c {
        PathPiece::Root => out.push(SEP),
        PathPiece::Cur => out.push(DOT),
        PathPiece::Parent => {
            out.push(DOT);
            out.push(DOT);
        },
        PathPiece::Name(t) => push_all(out, t.as_slice()),
    }
    assert(out@ =~= old(out)@ + piece_text(c@));
}

/// Appends the components of `cs` written out as after a verbatim prefix.
fn render(out: &mut Vec<u8>, cs: &Vec<PathPiece>)
    ensures
        final(out)@ == old(out)@ + render_pieces(pieces_view(cs@)),
{
    let ghost head = out@;
    let ghost v = pieces_view(cs@);
    let n = cs.len();
    let mut k: usize = 0;
    assert(v.take(0) =~= Seq::<Piece>::empty());
    assert(out@ =~= head + render_pieces(v.take(0)));
    while k < n
        invariant
            n == cs@.len(),
            v == pieces_view(cs@),
            k <= n,
            out@ == head + render_pieces(v.take(k as int)),
        decreases n - k,
    {
        let ghost before = out@;
        let ghost next = v.take(k as int + 1);
        assert(next.drop_last() =~= v.take(k as int));
        assert(next.last() == cs@[k as int]@);
        let after_root = k >= 1 && is_root(&cs[k - 1]);
        if k >= 1 {
            assert(next[k as int - 1] == cs@[k as int - 1]@);
        }
        if !after_root && !is_root(&cs[k]) {
            out.push(SEP);
        }
        push_piece_text(out, &cs[k]);
        assert(out@ =~= head + render_pieces(next));
        k = k + 1;
    }
    assert(v.take(n as int) =~= v);
}

/// The text of `base` with `part` pushed onto it, as a Windows path push
/// does (see [`pushed`]).
pub fn push_path(base: &[u8], part: &[u8]) -> (r: Vec<u8>)
    ensures
        r@ == pushed(base@, part@),
{
    if parse_prefix_of(part).is_some() {
        return copy_range(part, 0, part.len());
    }
    let (verbatim, start, bare_drive) = match parse_prefix_of(base) {
        Some((k, end)) => (
            match k {
                PrefixClass::Verbatim => true,
                PrefixClass::VerbatimUnc => true,
                PrefixClass::VerbatimDisk => true,
                _ => false,
            },
            end,
            match k {
                PrefixClass::Disk => end == base.len(),
                _ => false,
            },
        ),
        None => (false, 0, false),
    };
    assert(start == prefix_end(base@));
    assert(verbatim == is_verbatim_path(base@));
    assert(bare_drive == is_bare_drive(base@));
    let rooted = part.len() > 0 && is_sep_byte(part[0]);
    if verbatim && part.len() > 0 {
        let mut buf: Vec<PathPiece> = Vec::new();
        if start < base.len() && is_sep_byte(base[start]) {
            buf.push(PathPiece::Root);
            push_pieces_from(&mut buf, base, start + 1, true);
        } else {
            push_pieces_from(&mut buf, base, start, true);
        }
        assert(pieces_view(buf@) =~= verbatim_pieces(base@));
        let mut parts: Vec<PathPiece> = Vec::new();
        if rooted {
            parts.push(PathPiece::Root);
            push_pieces_from(&mut parts, part, 1, false);
        } else {
            push_pieces_from(&mut parts, part, 0, false);
        }
        assert(pieces_view(parts@) =~= part_pieces(part@));
        apply_pieces(&mut buf, &parts);
        let mut out = copy_range(base, 0, start);
        assert(out@ =~= base@.take(start as int));
        render(&mut out, &buf);
        return out;
    }
    let n = base.len();
    if rooted {
        let mut out = copy_range(base, 0, start);
        assert(out@ =~= base@.take(start as int));
        push_all(&mut out, part);
        out
    } else {
        let mut out = copy_range(base, 0, n);
        assert(out@ =~= base@);
        if n > 0 && !is_sep_byte(base[n - 1]) && !bare_drive {
            out.push(SEP);
        }
        push_all(&mut out, part);
        out
    }
}

/// Appends `char::from(d)` and a colon, as in `C:`.
fn push_drive(out: &mut Vec<u8>, d: u8)
    ensures
        final(out)@ == old(out)@ + drive_text(d),
{
    push_latin1_char(out, d);
    out.push(COLON);
    assert(out@ =~= old(out)@ + drive_text(d));
}

/// The text the first component of a path is compared by: a drive prefix,
/// verbatim or not, becomes `C:`; a UNC prefix, verbatim or not, becomes
/// `\\` with the server and then the share pushed onto it; anything else
/// is kept as written.
pub fn normalize_first_component(component: &PathComponent) -> (r: Vec<u8>)
    ensures
        r@ == normalized_first(*component),
{
    let mut out: Vec<u8> = Vec::new();
    match component {
        PathComponent::Prefix(p, raw) => match p {
            PathPrefix::VerbatimDisk(d) => push_drive(&mut out, *d),
            PathPrefix::Disk(d) => push_drive(&mut out, *d),
            PathPrefix::VerbatimUnc(server, share) => {
                out = unc_root(server.as_slice(), share.as_slice());
            },
            PathPrefix::Unc(server, share) => {
                out = unc_root(server.as_slice(), share.as_slice());
            },
            _ => push_all(&mut out, raw.as_slice()),
        },
        _ => push_component_text(&mut out, component),
    }
    assert(out@ =~= normalized_first(*component));
    out
}

/// `\\` with `server` and then `share` pushed onto it.
fn unc_root(server: &[u8], share: &[u8]) -> (r: Vec<u8>)
    ensures
        r@ == unc_text(server@, share@),
{
    let root: [u8; 2] = [SEP, SEP];
    assert(root@ =~= seq![SEP, SEP]);
    let with_server = push_path(&root, server);
    push_path(with_server.as_slice(), share)
}

/// The text of a component as it is written.
fn component_bytes(c: &PathComponent) -> (r: Vec<u8>)
    ensures
        r@ == component_text(*c),
{
    let mut out: Vec<u8> = Vec::new();
    push_component_text(&mut out, c);
    assert(out@ =~= component_text(*c));
    out
}

/// The text a path is compared by: its first component normalized by
/// [`normalize_first_component`], then each other component pushed onto
/// it in turn, as a path is collected from its components.
pub fn normalize_windows_path(path: &[PathComponent]) -> (r: Vec<u8>)
    ensures
        r@ == normalized_path(path@),
{
    let n = path.len();
    if n == 0 {
        return Vec::new();
    }
    let ghost first = normalized_first(path@[0]);
    let mut out = normalize_first_component(&path[0]);
    let mut i: usize = 1;
    assert(component_texts(path@.subrange(1, 1)) =~= Seq::<Seq<u8>>::empty());
    while i < n
        invariant
            n == path@.len(),
            1 <= i <= n,
            first == normalized_first(path@[0]),
            out@ == pushed_all(first, component_texts(path@.subrange(1, i as int))),
        decreases n - i,
    {
        let ghost next = component_texts(path@.subrange(1, i as int + 1));
        assert(next.drop_last() =~= component_texts(path@.subrange(1, i as int)));
        assert(next.last() == component_text(path@[i as int]));
        let text = component_bytes(&path[i]);
        out = push_path(out.as_slice(), text.as_slice());
        i = i + 1;
    }
    out
}

/// Whether two (already canonicalized) paths name the same project: their
/// normalized texts are equal when ASCII case is ignored.
pub fn paths_match(left: &[PathComponent], right: &[PathComponent]) -> (r: bool)
    ensures
        r == same_project_path(left@, right@),
{
    let left = normalize_windows_path(left);
    let right = normalize_windows_path(right);
    bytes_eq_ignore_ascii_case(left.as_slice(), right.as_slice())
}

/// Whether the two components are equal as path equality sees them.
fn prefix_equal(a: &PathPrefix, b: &PathPrefix) -> (r: bool)
    ensures
        r == (a@ == b@),
{
    match (a, b) {
        (PathPrefix::Verbatim(x), PathPrefix::Verbatim(y)) => bytes_equal(x.as_slice(), y.as_slice()),
        (PathPrefix::VerbatimUnc(x1, x2), PathPrefix::VerbatimUnc(y1, y2)) => {
            bytes_equal(x1.as_slice(), y1.as_slice()) && bytes_equal(x2.as_slice(), y2.as_slice())
        },
        (PathPrefix::VerbatimDisk(x), PathPrefix::VerbatimDisk(y)) => *x == *y,
        (PathPrefix::DeviceNs(x), PathPrefix::DeviceNs(y)) => bytes_equal(x.as_slice(), y.as_slice()),
        (PathPrefix::Unc(x1, x2), PathPrefix::Unc(y1, y2)) => {
            bytes_equal(x1.as_slice(), y1.as_slice()) && bytes_equal(x2.as_slice(), y2.as_slice())
        },
        (PathPrefix::Disk(x), PathPrefix::Disk(y)) => *x == *y,
        _ => false,
    }
}

/// Whether the two components are equal as path equality sees them: a
/// prefix by its kind and parts, any other component by its text.
pub fn component_equal(a: &PathComponent, b: &PathComponent) -> (r: bool)
    ensures
        r == (a@ == b@),
{
    match (a, b) {
        (PathComponent::Prefix(x, _), PathComponent::Prefix(y, _)) => prefix_equal(x, y),
        (PathComponent::RootDir, PathComponent::RootDir) => true,
        (PathComponent::CurDir, PathComponent::CurDir) => true,
        (PathComponent::ParentDir, PathComponent::ParentDir) => true,
        (PathComponent::Normal(x), PathComponent::Normal(y)) => bytes_equal(x.as_slice(), y.as_slice()),
        _ => false,
    }
}

/// Whether the two paths are equal component by component.
pub fn path_equal(a: &[PathComponent], b: &[PathComponent]) -> (r: bool)
    ensures
        r == (path_view(a@) == path_view(b@)),
{
    if a.len() != b.len() {
        assert(path_view(a@).len() != path_view(b@).len());
        return false;
    }
    let n = a.len();
    let mut i: usize = 0;
    while i < n
        invariant
            n == a@.len(),
            n == b@.len(),
            i <= n,
            forall|j: int| 0 <= j < i ==> a@[j]@ == b@[j]@,
        decreases n - i,
    {
        if !component_equal(&a[i], &b[i]) {
            assert(path_view(a@)[i as int] != path_view(b@)[i as int]);
            return false;
        }
        i = i + 1;
    }
    assert(path_view(a@) =~= path_view(b@));
    true
}

/// Copies a component.
pub fn clone_component(c: &PathComponent) -> (r: PathComponent)
    ensures
        r@ == c@,
        component_text(r) == component_text(*c),
{
    match c {
        PathComponent::Prefix(p, raw) => {
            let q = match p {
                PathPrefix::Verbatim(x) => PathPrefix::Verbatim(clone_bytes(x)),
                PathPrefix::VerbatimUnc(x, y) => PathPrefix::VerbatimUnc(clone_bytes(x), clone_bytes(y)),
                PathPrefix::VerbatimDisk(d) => PathPrefix::VerbatimDisk(*d),
                PathPrefix::DeviceNs(x) => PathPrefix::DeviceNs(clone_bytes(x)),
                PathPrefix::Unc(x, y) => PathPrefix::Unc(clone_bytes(x), clone_bytes(y)),
                PathPrefix::Disk(d) => PathPrefix::Disk(*d),
            };
            PathComponent::Prefix(q, clone_bytes(raw))
        },
        PathComponent::RootDir => PathComponent::RootDir,
        PathComponent::CurDir => PathComponent::CurDir,
        PathComponent::ParentDir => PathComponent::ParentDir,
        PathComponent::Normal(s) => PathComponent::Normal(clone_bytes(s)),
    }
}

/// Copies a byte vector.
pub fn clone_bytes(v: &Vec<u8>) -> (r: Vec<u8>)
    ensures
        r@ == v@,
{
    let mut out: Vec<u8> = Vec::new();
    push_all(&mut out, v.as_slice());
    assert(out@ =~= v@);
    out
}

/// Copies a path.
pub fn clone_path(path: &[PathComponent]) -> (r: Vec<PathComponent>)
    ensures
        path_view(r@) == path_view(path@),
        r@.len() == path@.len(),
        forall|i: int| 0 <= i < path@.len() ==> component_text(#[trigger] r@[i]) == component_text(path@[i]),
{
    let mut out: Vec<PathComponent> = Vec::new();
    let n = path.len();
    let mut i: usize = 0;
    while i < n
        invariant
            n == path@.len(),
            i <= n,
            out@.len() == i,
            forall|j: int| 0 <= j < i ==> (#[trigger] out@[j])@ == path@[j]@
                && component_text(out@[j]) == component_text(path@[j]),
        decreases n - i,
    {
        out.push(clone_component(&path[i]));
        i = i + 1;
    }
    assert(path_view(out@) =~= path_view(path@));
    out
}

/// Comparing paths is an equivalence: every path matches itself, matching
/// is symmetric, and it is transitive.
pub proof fn lemma_paths_match_is_equivalence(a: Seq<PathComponent>, b: Seq<PathComponent>, c: Seq<PathComponent>)
    ensures
        same_project_path(a, a),
        same_project_path(a, b) ==> same_project_path(b, a),
        same_project_path(a, b) && same_project_path(b, c) ==> same_project_path(a, c),
{
    let na = normalized_path(a);
    let nb = normalized_path(b);
    let nc = normalized_path(c);
    if same_project_path(a, b) && same_project_path(b, c) {
        assert forall|i: int| 0 <= i < na.len() implies ascii_lower(#[trigger] na[i]) == ascii_lower(nc[i]) by {
            assert(ascii_lower(na[i]) == ascii_lower(nb[i]));
            assert(ascii_lower(nb[i]) == ascii_lower(nc[i]));
        }
    }
}

/// A drive path matches its verbatim form: `\\?\C:\rest` and `C:\rest`
/// name the same project.
pub proof fn lemma_verbatim_disk_matches_disk(
    drive: u8,
    verbatim_raw: Vec<u8>,
    raw: Vec<u8>,
    rest: Seq<PathComponent>,
)
    ensures
        same_project_path(
            seq![PathComponent::Prefix(PathPrefix::VerbatimDisk(drive), verbatim_raw)] + rest,
            seq![PathComponent::Prefix(PathPrefix::Disk(drive), raw)] + rest,
        ),
{
    let p = seq![PathComponent::Prefix(PathPrefix::VerbatimDisk(drive), verbatim_raw)] + rest;
    let q = seq![PathComponent::Prefix(PathPrefix::Disk(drive), raw)] + rest;
    assert(p.subrange(1, p.len() as int) =~= rest);
    assert(q.subrange(1, q.len() as int) =~= rest);
    assert(normalized_path(p) == normalized_path(q));
    lemma_paths_match_is_equivalence(p, p, p);
}

/// A UNC path matches its verbatim form: `\\?\UNC\server\share\rest` and
/// `\\server\share\rest` name the same project, whatever the server and
/// share are.
pub proof fn lemma_verbatim_unc_matches_unc(
    server: Vec<u8>,
    share: Vec<u8>,
    verbatim_raw: Vec<u8>,
    raw: Vec<u8>,
    rest: Seq<PathComponent>,
)
    ensures
        same_project_path(
            seq![PathComponent::Prefix(PathPrefix::VerbatimUnc(server, share), verbatim_raw)] + rest,
            seq![PathComponent::Prefix(PathPrefix::Unc(server, share), raw)] + rest,
        ),
{
    let p = seq![PathComponent::Prefix(PathPrefix::VerbatimUnc(server, share), verbatim_raw)] + rest;
    let q = seq![PathComponent::Prefix(PathPrefix::Unc(server, share), raw)] + rest;
    assert(p.subrange(1, p.len() as int) =~= rest);
    assert(q.subrange(1, q.len() as int) =~= rest);
    assert(normalized_path(p) == normalized_path(q));
    lemma_paths_match_is_equivalence(p, p, p);
}

/// Whether `a` and `b` differ at most in the ASCII case of letters: at each
/// position the bytes are equal, or one is an upper-case letter and the
/// other the same letter in lower case.
pub open spec fn differ_only_in_ascii_case(a: Seq<u8>, b: Seq<u8>) -> bool {
    &&& a.len() == b.len()
    &&& forall|i: int|
        0 <= i < a.len() ==> (#[trigger] a[i] == b[i] || (0x41 <= a[i] <= 0x5A && b[i] == a[i] + 32) || (
        0x41 <= b[i] <= 0x5A && a[i] == b[i] + 32))
}

/// Case folding turns each upper-case ASCII letter `A`..=`Z` into its
/// lower-case letter (32 further on) and leaves every other byte as it is.
pub proof fn lemma_ascii_lower_folds_letters(b: u8)
    ensures
        0x41 <= b <= 0x5A ==> ascii_lower(b) == b + 32 && 0x61 <= ascii_lower(b) <= 0x7A,
        !(0x41 <= b <= 0x5A) ==> ascii_lower(b) == b,
{
}

/// Byte strings compare equal, ignoring ASCII case, exactly when they
/// differ at most in the ASCII case of letters.
pub proof fn lemma_eq_ignore_ascii_case_is_case_insensitive_equality(a: Seq<u8>, b: Seq<u8>)
    ensures
        eq_ignore_ascii_case(a, b) <==> differ_only_in_ascii_case(a, b),
{
    if eq_ignore_ascii_case(a, b) {
        assert forall|i: int| 0 <= i < a.len() implies (#[trigger] a[i] == b[i] || (0x41 <= a[i] <= 0x5A && b[i]
            == a[i] + 32) || (0x41 <= b[i] <= 0x5A && a[i] == b[i] + 32)) by {
            assert(ascii_lower(a[i]) == ascii_lower(b[i]));
        }
    }
    if differ_only_in_ascii_case(a, b) {
        assert forall|i: int| 0 <= i < a.len() implies ascii_lower(#[trigger] a[i]) == ascii_lower(b[i]) by {
            assert(a[i] == b[i] || (0x41 <= a[i] <= 0x5A && b[i] == a[i] + 32) || (0x41 <= b[i] <= 0x5A && a[i]
                == b[i] + 32));
        }
    }
}

/// Two paths whose normalized texts differ at most in the ASCII case of
/// letters name the same project.
pub proof fn lemma_paths_differing_in_case_match(left: Seq<PathComponent>, right: Seq<PathComponent>)
    requires
        differ_only_in_ascii_case(normalized_path(left), normalized_path(right)),
    ensures
        same_project_path(left, right),
{
    lemma_eq_ignore_ascii_case_is_case_insensitive_equality(normalized_path(left), normalized_path(right));
}

} // verus!
