//! Host paths as the capability checks see them: a list of components.

use vstd::prelude::*;

use crate::text::{chars_of, same_text};

verus! {

/// One name inside a path.
///
/// Host names need not be valid text; a name that is not keeps its encoded bytes.
#[derive(Debug, PartialEq, Eq)]
pub enum PathName {
    /// A name that is valid text.
    Text(String),
    /// A name that is not valid text.
    Raw(Vec<u8>),
}

/// What a [`PathName`] stands for.
pub enum PathNameView {
    /// A name that is valid text.
    Text(Seq<char>),
    /// A name that is not valid text.
    Raw(Seq<u8>),
}

impl View for PathName {
    type V = PathNameView;

    open spec fn view(&self) -> PathNameView {
        match self {
            PathName::Text(text) => PathNameView::Text(text@),
            PathName::Raw(bytes) => PathNameView::Raw(bytes@),
        }
    }
}

impl Clone for PathName {
    fn clone(&self) -> (copy: Self)
        ensures
            copy@ == self@,
    {
        match self {
            PathName::Text(text) => PathName::Text(text.clone()),
            PathName::Raw(bytes) => {
                let copied = bytes.clone();
                assert(copied@ =~= bytes@);
                PathName::Raw(copied)
            },
        }
    }
}

/// One component of a path.
#[derive(Debug, PartialEq, Eq)]
pub enum PathComponent {
    /// A platform prefix such as a drive.
    Prefix(PathName),
    /// The root of the filesystem.
    RootDir,
    /// The current directory.
    CurDir,
    /// The parent directory.
    ParentDir,
    /// An ordinary name.
    Normal(PathName),
}

/// What a [`PathComponent`] stands for.
pub enum ComponentView {
    /// A platform prefix such as a drive.
    Prefix(PathNameView),
    /// The root of the filesystem.
    RootDir,
    /// The current directory.
    CurDir,
    /// The parent directory.
    ParentDir,
    /// An ordinary name.
    Normal(PathNameView),
}

impl View for PathComponent {
    type V = ComponentView;

    open spec fn view(&self) -> ComponentView {
        match self {
            PathComponent::Prefix(name) => ComponentView::Prefix(name@),
            PathComponent::RootDir => ComponentView::RootDir,
            PathComponent::CurDir => ComponentView::CurDir,
            PathComponent::ParentDir => ComponentView::ParentDir,
            PathComponent::Normal(name) => ComponentView::Normal(name@),
        }
    }
}

impl Clone for PathComponent {
    fn clone(&self) -> (copy: Self)
        ensures
            copy@ == self@,
    {
        match self {
            PathComponent::Prefix(name) => PathComponent::Prefix(name.clone()),
            PathComponent::RootDir => PathComponent::RootDir,
            PathComponent::CurDir => PathComponent::CurDir,
            PathComponent::ParentDir => PathComponent::ParentDir,
            PathComponent::Normal(name) => PathComponent::Normal(name.clone()),
        }
    }
}

/// A host path: whether it is absolute, and its components in order.
///
/// Paths are compared by their components; the spelling serves to show a path, or a part of it, as
/// it was given.
#[derive(Debug, Eq)]
pub struct HostPath {
    /// Whether the path is independent of the current directory.
    pub absolute: bool,
    /// The components of the path, in order.
    pub components: Vec<PathComponent>,
    /// The path as it was given, where it was given as a whole.
    pub spelling: Option<String>,
}

/// What a [`HostPath`] stands for.
#[verifier::ext_equal]
pub struct PathView {
    /// Whether the path is independent of the current directory.
    pub absolute: bool,
    /// The components of the path, in order.
    pub components: Seq<ComponentView>,
    /// The path as it was given, where it was given as a whole.
    pub spelling: Option<Seq<char>>,
}

/// The views of a list of components.
pub open spec fn component_views(list: Seq<PathComponent>) -> Seq<ComponentView> {
    list.map_values(|c: PathComponent| c@)
}

impl View for HostPath {
    type V = PathView;

    open spec fn view(&self) -> PathView {
        PathView {
            absolute: self.absolute,
            components: component_views(self.components@),
            spelling: match self.spelling {
                Some(text) => Some(text@),
                None => None,
            },
        }
    }
}

/// The view of an optional path.
pub open spec fn path_option(path: Option<HostPath>) -> Option<PathView> {
    match path {
        Some(path) => Some(path@),
        None => None,
    }
}

/// The numbers that a name is encoded by: its characters, or its bytes where it is not valid text.
pub open spec fn name_codes(name: PathNameView) -> Seq<int> {
    match name {
        PathNameView::Text(text) => text.map_values(|c: char| c as int),
        PathNameView::Raw(bytes) => bytes.map_values(|b: u8| b as int),
    }
}

/// An ASCII letter without its case; any other number as it is.
pub open spec fn caseless(code: int) -> int {
    if 'A' as int <= code <= 'Z' as int {
        code + 32
    } else {
        code
    }
}

/// Whether a prefix opens with the marker of a verbatim path, `\\?\`.
pub open spec fn is_verbatim(codes: Seq<int>) -> bool {
    &&& codes.len() >= 4
    &&& codes[0] == '\\' as int
    &&& codes[1] == '\\' as int
    &&& codes[2] == '?' as int
    &&& codes[3] == '\\' as int
}

/// Whether a prefix is a drive: a letter and a colon, alone or behind a verbatim marker.
pub open spec fn is_drive(codes: Seq<int>) -> bool {
    let at = codes.len() - 2;
    &&& at == 0 || at == 4 && is_verbatim(codes)
    &&& 'a' as int <= caseless(codes[at]) <= 'z' as int
    &&& codes[at + 1] == ':' as int
}

/// The letter of a drive, without its case.
pub open spec fn drive_letter(codes: Seq<int>) -> int {
    caseless(codes[codes.len() - 2])
}

/// Whether a number encodes one of the two separators, `/` and `\`.
pub open spec fn is_slash(code: int) -> bool {
    code == '/' as int || code == '\\' as int
}

/// Whether two prefixes differ in nothing but which separator stands where.
pub open spec fn same_up_to_slashes(a: Seq<int>, b: Seq<int>) -> bool {
    &&& a.len() == b.len()
    &&& forall|i: int|
        0 <= i < a.len() ==> #[trigger] a[i] == b[i] || is_slash(a[i]) && is_slash(b[i])
}

/// Whether two prefixes stand for the same.
///
/// The case of a drive letter does not matter, nor does which separator is written, except that a
/// verbatim prefix is taken as it is written.
pub open spec fn alike_prefixes(a: Seq<int>, b: Seq<int>) -> bool {
    ||| is_drive(a) && is_drive(b) && a.len() == b.len() && drive_letter(a) == drive_letter(b)
    ||| !is_verbatim(a) && !is_verbatim(b) && same_up_to_slashes(a, b)
}

/// Whether two components name the same thing.
pub open spec fn alike(a: ComponentView, b: ComponentView) -> bool {
    a == b || match (a, b) {
        (ComponentView::Prefix(x), ComponentView::Prefix(y)) => (x is Text) == (y is Text)
            && alike_prefixes(name_codes(x), name_codes(y)),
        _ => false,
    }
}

impl PathView {
    /// Absolute, with no `.` and no `..` component.
    pub open spec fn safe_absolute(self) -> bool {
        &&& self.absolute
        &&& forall|i: int|
            0 <= i < self.components.len() ==> !(#[trigger] self.components[i] is ParentDir)
                && !(self.components[i] is CurDir)
    }

    /// Whether the whole components of `base` open this path.
    pub open spec fn starts_with(self, base: PathView) -> bool {
        &&& base.components.len() <= self.components.len()
        &&& forall|i: int|
            0 <= i < base.components.len() ==> alike(
                #[trigger] self.components[i],
                base.components[i],
            )
    }

    /// Whether two paths have the same components.
    pub open spec fn same_path(self, other: PathView) -> bool {
        &&& self.absolute == other.absolute
        &&& self.components.len() == other.components.len()
        &&& self.starts_with(other)
    }

    /// The text shown for the path: as it was given, or else its components.
    pub open spec fn shown(self) -> Seq<char> {
        match self.spelling {
            Some(text) => text,
            None => joined(self.components),
        }
    }

    /// Whether the last component is an ordinary name.
    pub open spec fn has_file_name(self) -> bool {
        self.components.len() > 0 && self.components.last() is Normal
    }

    /// The path without its last component.
    pub open spec fn parent(self) -> PathView {
        PathView {
            absolute: self.absolute,
            components: self.components.drop_last(),
            spelling: None,
        }
    }

    /// The path with one more component.
    pub open spec fn child(self, component: ComponentView) -> PathView {
        PathView {
            absolute: self.absolute,
            components: self.components.push(component),
            spelling: None,
        }
    }

    /// The path after resolving its nearest existing ancestor.
    ///
    /// `canonical` answers for each path what it resolves to, if it exists.
    pub open spec fn resolved(
        self,
        canonical: spec_fn(PathView) -> Option<PathView>,
    ) -> Option<PathView>
        decreases self.components.len(),
    {
        match canonical(self) {
            Some(found) => Some(found),
            None => if self.has_file_name() {
                match self.parent().resolved(canonical) {
                    Some(found) => Some(found.child(self.components.last())),
                    None => None,
                }
            } else {
                None
            },
        }
    }
}

/// The length of the piece of `text` before its first separator.
pub open spec fn piece_len(text: Seq<char>) -> nat
    decreases text.len(),
{
    if text.len() == 0 || text[0] == '/' {
        0
    } else {
        1 + piece_len(text.skip(1))
    }
}

/// The pieces of `text` between separators, without the empty ones.
pub open spec fn pieces(text: Seq<char>) -> Seq<Seq<char>>
    decreases text.len(),
{
    let n = piece_len(text) as int;
    if text.len() == 0 {
        Seq::empty()
    } else if n == 0 {
        pieces(text.skip(1))
    } else if 0 < n <= text.len() {
        seq![text.take(n)] + pieces(text.skip(n))
    } else {
        Seq::empty()
    }
}

/// The components that a list of pieces stands for.
///
/// `.` is a component only where it opens a relative path.
pub open spec fn piece_components(list: Seq<Seq<char>>, opening: bool) -> Seq<ComponentView>
    decreases list.len(),
{
    if list.len() == 0 {
        Seq::empty()
    } else {
        let rest = piece_components(list.skip(1), false);
        if list[0] == seq!['.'] {
            if opening {
                seq![ComponentView::CurDir] + rest
            } else {
                rest
            }
        } else if list[0] == seq!['.', '.'] {
            seq![ComponentView::ParentDir] + rest
        } else {
            seq![ComponentView::Normal(PathNameView::Text(list[0]))] + rest
        }
    }
}

/// The components of a path that is written with `/` alone.
pub open spec fn slash_components(text: Seq<char>) -> Seq<ComponentView> {
    if text.len() > 0 && text[0] == '/' {
        seq![ComponentView::RootDir] + piece_components(pieces(text), false)
    } else {
        piece_components(pieces(text), true)
    }
}

/// A text that every platform splits alike: no backslash, no colon, and no doubled opening slash.
pub open spec fn portable(text: Seq<char>) -> bool {
    &&& !text.contains('\\')
    &&& !text.contains(':')
    &&& !(text.len() >= 2 && text[0] == '/' && text[1] == '/')
}

/// Split a path with [`std::path::Path::components`].
///
/// Trusted: repeated and trailing separators are ignored and `.` is dropped except where it opens
/// a relative path. Platforms differ on prefixes and on further separators, so nothing is claimed
/// of a text that holds a backslash, a colon or a doubled opening slash.
#[verifier::external_body]
fn split_components(text: &str) -> (components: Vec<PathComponent>)
    ensures
        portable(text@) ==> component_views(components@) == slash_components(text@),
{
    std::path::Path::new(text).components().map(|component| match component {
        std::path::Component::Prefix(prefix) => PathComponent::Prefix(
            PathName::Text(prefix.as_os_str().to_string_lossy().into_owned())),
        std::path::Component::RootDir => PathComponent::RootDir,
        std::path::Component::CurDir => PathComponent::CurDir,
        std::path::Component::ParentDir => PathComponent::ParentDir,
        std::path::Component::Normal(name) => PathComponent::Normal(
            PathName::Text(name.to_string_lossy().into_owned())),
    }).collect()
}

/// Ask [`std::path::Path::is_absolute`].
///
/// Trusted: a path without a platform prefix is absolute only if it opens with the root. Platforms
/// differ on whether that is enough, so the converse is not claimed.
#[verifier::external_body]
fn text_is_absolute(text: &str) -> (absolute: bool)
    ensures
        portable(text@) && absolute ==> text@.len() > 0 && text@[0] == '/',
{
    std::path::Path::new(text).is_absolute()
}

/// Whether the standard library may split a text into components.
pub closed spec fn may_split(text: &str, components: Vec<PathComponent>) -> bool {
    call_ensures(split_components, (text,), components)
}

/// Whether the standard library may say of a text that it is absolute, or that it is not.
pub closed spec fn may_be_absolute(text: &str, absolute: bool) -> bool {
    call_ensures(text_is_absolute, (text,), absolute)
}

/// What may be answered for a text is what the standard library may answer for it.
proof fn law_answers_are_those_of_std(text: &str, components: Vec<PathComponent>, absolute: bool)
    ensures
        may_split(text, components) <==> call_ensures(split_components, (text,), components),
        may_be_absolute(text, absolute) <==> call_ensures(text_is_absolute, (text,), absolute),
{
}

pub uninterp spec fn lossy_text(bytes: Seq<u8>) -> Seq<char>;

/// Decode bytes with [`String::from_utf8_lossy`].
///
/// Trusted: the text is a function of the bytes.
#[verifier::external_body]
fn decode_lossy(bytes: &Vec<u8>) -> (text: String)
    ensures
        text@ == lossy_text(bytes@),
{
    String::from_utf8_lossy(bytes).into_owned()
}

/// Whether two names are the same.
fn same_name(a: &PathName, b: &PathName) -> (same: bool)
    ensures
        same == (a@ == b@),
{
    match (a, b) {
        (PathName::Text(x), PathName::Text(y)) => same_text(x.as_str(), y.as_str()),
        (PathName::Raw(x), PathName::Raw(y)) => same_bytes(x, y),
        _ => false,
    }
}

/// Whether two byte strings are the same.
fn same_bytes(a: &Vec<u8>, b: &Vec<u8>) -> (same: bool)
    ensures
        same == (a@ == b@),
{
    if a.len() != b.len() {
        return false;
    }
    let mut i: usize = 0;
    while i < a.len()
        invariant
            i <= a.len(),
            a.len() == b.len(),
            forall|k: int| 0 <= k < i ==> a@[k] == b@[k],
        decreases a.len() - i,
    {
        if a[i] != b[i] {
            return false;
        }
        i += 1;
    }
    assert(a@ =~= b@);
    true
}

/// An ASCII letter without its case; any other number as it is.
fn fold_case(code: u32) -> (folded: u32)
    ensures
        folded as int == caseless(code as int),
{
    if 'A' as u32 <= code && code <= 'Z' as u32 {
        code + 32
    } else {
        code
    }
}

/// The number of a character.
fn code_of(c: char) -> (code: u32)
    ensures
        code as int == c as int,
{
    c as u32
}

/// The numbers that a name is encoded by.
fn codes_of(name: &PathName) -> (codes: Vec<u32>)
    ensures
        codes@.map_values(|c: u32| c as int) == name_codes(name@),
{
    let mut codes: Vec<u32> = Vec::new();
    let mut i: usize = 0;
    match name {
        PathName::Text(text) => {
            let chars = chars_of(text.as_str());
            while i < chars.len()
                invariant
                    i <= chars.len(),
                    codes.len() == i,
                    forall|k: int| 0 <= k < i ==> #[trigger] codes@[k] as int == chars@[k] as int,
                decreases chars.len() - i,
            {
                codes.push(code_of(chars[i]));
                i += 1;
            }
        },
        PathName::Raw(bytes) => {
            while i < bytes.len()
                invariant
                    i <= bytes.len(),
                    codes.len() == i,
                    forall|k: int| 0 <= k < i ==> #[trigger] codes@[k] as int == bytes@[k] as int,
                decreases bytes.len() - i,
            {
                codes.push(bytes[i] as u32);
                i += 1;
            }
        },
    }
    assert(codes@.map_values(|c: u32| c as int) =~= name_codes(name@));
    codes
}

/// Whether a prefix opens with the marker of a verbatim path.
fn opens_verbatim(codes: &Vec<u32>) -> (verbatim: bool)
    ensures
        verbatim == is_verbatim(codes@.map_values(|c: u32| c as int)),
{
    codes.len() >= 4 && codes[0] == '\\' as u32 && codes[1] == '\\' as u32 && codes[2] == '?' as u32
        && codes[3] == '\\' as u32
}

/// The letter of a drive without its case, if the prefix is a drive.
fn drive_of(codes: &Vec<u32>) -> (drive: Option<u32>)
    ensures
        ({
            let view = codes@.map_values(|c: u32| c as int);
            match drive {
                Some(letter) => is_drive(view) && letter as int == drive_letter(view),
                None => !is_drive(view),
            }
        }),
{
    if codes.len() != 2 && !(codes.len() == 6 && opens_verbatim(codes)) {
        return None;
    }
    let at: usize = codes.len() - 2;
    let letter = fold_case(codes[at]);
    if codes[at + 1] == ':' as u32 && 'a' as u32 <= letter && letter <= 'z' as u32 {
        Some(letter)
    } else {
        None
    }
}

/// Whether two prefixes differ in nothing but which separator stands where.
fn equal_up_to_slashes(a: &Vec<u32>, b: &Vec<u32>) -> (same: bool)
    ensures
        same == same_up_to_slashes(
            a@.map_values(|c: u32| c as int),
            b@.map_values(|c: u32| c as int),
        ),
{
    if a.len() != b.len() {
        return false;
    }
    let ghost x = a@.map_values(|c: u32| c as int);
    let ghost y = b@.map_values(|c: u32| c as int);
    let mut i: usize = 0;
    while i < a.len()
        invariant
            i <= a.len(),
            a.len() == b.len(),
            x == a@.map_values(|c: u32| c as int),
            y == b@.map_values(|c: u32| c as int),
            forall|k: int|
                0 <= k < i ==> #[trigger] x[k] == y[k] || is_slash(x[k]) && is_slash(y[k]),
        decreases a.len() - i,
    {
        assert(x[i as int] == a@[i as int] as int && y[i as int] == b@[i as int] as int);
        let slashes = (a[i] == '/' as u32 || a[i] == '\\' as u32) && (b[i] == '/' as u32 || b[i]
            == '\\' as u32);
        if a[i] != b[i] && !slashes {
            return false;
        }
        i += 1;
    }
    true
}

/// Whether two prefixes stand for the same.
fn same_prefix(a: &PathName, b: &PathName) -> (same: bool)
    ensures
        same == alike(ComponentView::Prefix(a@), ComponentView::Prefix(b@)),
{
    if same_name(a, b) {
        return true;
    }
    match (a, b) {
        (PathName::Text(_), PathName::Raw(_)) | (PathName::Raw(_), PathName::Text(_)) => {
            return false;
        },
        _ => {},
    }
    let x = codes_of(a);
    let y = codes_of(b);
    match (drive_of(&x), drive_of(&y)) {
        (Some(p), Some(q)) => {
            if p == q && x.len() == y.len() {
                return true;
            }
        },
        _ => {},
    }
    !opens_verbatim(&x) && !opens_verbatim(&y) && equal_up_to_slashes(&x, &y)
}

/// Whether two components name the same thing.
fn same_component(a: &PathComponent, b: &PathComponent) -> (same: bool)
    ensures
        same == alike(a@, b@),
{
    match (a, b) {
        (PathComponent::Prefix(x), PathComponent::Prefix(y)) => same_prefix(x, y),
        (PathComponent::RootDir, PathComponent::RootDir) => true,
        (PathComponent::CurDir, PathComponent::CurDir) => true,
        (PathComponent::ParentDir, PathComponent::ParentDir) => true,
        (PathComponent::Normal(x), PathComponent::Normal(y)) => same_name(x, y),
        _ => false,
    }
}

/// The text shown for a name.
pub open spec fn name_text(name: PathNameView) -> Seq<char> {
    match name {
        PathNameView::Text(text) => text,
        PathNameView::Raw(bytes) => lossy_text(bytes),
    }
}

/// The text shown for a component.
pub open spec fn component_text(component: ComponentView) -> Seq<char> {
    match component {
        ComponentView::Prefix(name) => name_text(name),
        ComponentView::RootDir => seq!['/'],
        ComponentView::CurDir => seq!['.'],
        ComponentView::ParentDir => seq!['.', '.'],
        ComponentView::Normal(name) => name_text(name),
    }
}

/// Whether a separator stands after the last of these components.
pub open spec fn needs_separator(components: Seq<ComponentView>) -> bool {
    components.len() > 0 && !(components.last() is RootDir) && !(components.last() is Prefix)
}

/// Components written out with `/` between names.
pub open spec fn joined(components: Seq<ComponentView>) -> Seq<char>
    decreases components.len(),
{
    if components.len() == 0 {
        Seq::empty()
    } else {
        let before = components.drop_last();
        let separator = if needs_separator(before) {
            seq!['/']
        } else {
            Seq::empty()
        };
        joined(before) + separator + component_text(components.last())
    }
}

/// The separator that a host writes between the names of a path.
#[derive(Clone, Copy, Debug, PartialEq, Eq, Structural)]
pub enum Separator {
    /// `/`
    Slash,
    /// `\`
    Backslash,
}

impl Separator {
    /// The separator itself.
    pub open spec fn symbol(self) -> char {
        match self {
            Separator::Slash => '/',
            Separator::Backslash => '\\',
        }
    }

    /// The separator as a text.
    pub fn text(self) -> (text: &'static str)
        ensures
            text@ == seq![self.symbol()],
    {
        proof {
            reveal_strlit("/");
            reveal_strlit("\\");
        }
        match self {
            Separator::Slash => {
                assert("/"@ =~= seq!['/']);
                "/"
            },
            Separator::Backslash => {
                assert("\\"@ =~= seq!['\\']);
                "\\"
            },
        }
    }
}

/// Whether a character stands between the names of a path.
///
/// `main` is the separator that the host writes; `/` is one as well, except in a verbatim path.
pub open spec fn is_separator(c: char, main: Separator, verbatim: bool) -> bool {
    c == main.symbol() || !verbatim && c == '/'
}

/// The text without the separators and `.` segments that open it.
pub open spec fn trimmed_front(text: Seq<char>, main: Separator, verbatim: bool) -> Seq<char>
    decreases text.len(),
{
    if text.len() == 0 {
        text
    } else if is_separator(text[0], main, verbatim) {
        trimmed_front(text.skip(1), main, verbatim)
    } else if !verbatim && text[0] == '.' && (text.len() == 1 || is_separator(
        text[1],
        main,
        verbatim,
    )) {
        trimmed_front(text.skip(1), main, verbatim)
    } else {
        text
    }
}

/// The text without the separators and `.` segments that close it.
pub open spec fn trimmed_back(text: Seq<char>, main: Separator, verbatim: bool) -> Seq<char>
    decreases text.len(),
{
    let last = text.len() - 1;
    if text.len() == 0 {
        text
    } else if is_separator(text[last], main, verbatim) {
        trimmed_back(text.drop_last(), main, verbatim)
    } else if !verbatim && text[last] == '.' && (last == 0 || is_separator(
        text[last - 1],
        main,
        verbatim,
    )) {
        trimmed_back(text.drop_last(), main, verbatim)
    } else {
        text
    }
}

/// The length of the name that opens a text.
pub open spec fn name_len(text: Seq<char>, main: Separator, verbatim: bool) -> nat
    decreases text.len(),
{
    if text.len() == 0 || is_separator(text[0], main, verbatim) {
        0
    } else {
        1 + name_len(text.skip(1), main, verbatim)
    }
}

/// What is left of a text behind its first `names` names, as it is written.
///
/// What stands between the names that are left stays; what stands around them does not.
pub open spec fn after_names(text: Seq<char>, names: nat, main: Separator, verbatim: bool) -> Seq<char>
    decreases names,
{
    let rest = trimmed_front(text, main, verbatim);
    if names == 0 {
        trimmed_back(rest, main, verbatim)
    } else {
        after_names(
            rest.skip(name_len(rest, main, verbatim) as int),
            (names - 1) as nat,
            main,
            verbatim,
        )
    }
}

/// How many of these components are ordinary names.
pub open spec fn count_names(components: Seq<ComponentView>) -> nat
    decreases components.len(),
{
    if components.len() == 0 {
        0
    } else {
        count_names(components.drop_last()) + if components.last() is Normal {
            1nat
        } else {
            0nat
        }
    }
}

impl PathView {
    /// The text of the platform prefix that opens the path, if there is one.
    pub open spec fn prefix_text(self) -> Seq<char> {
        if self.components.len() > 0 && self.components[0] is Prefix {
            component_text(self.components[0])
        } else {
            Seq::empty()
        }
    }

    /// Whether the path opens with a verbatim prefix.
    pub open spec fn verbatim(self) -> bool {
        is_verbatim(self.prefix_text().map_values(|c: char| c as int))
    }

    /// The part of the path from component `start` on: as it was given, or else its components.
    pub open spec fn part_from(self, start: int, main: Separator) -> Seq<char> {
        let prefix = self.prefix_text().len() as int;
        match self.spelling {
            Some(text) if prefix <= text.len() => after_names(
                text.skip(prefix),
                count_names(self.components.take(start)),
                main,
                self.verbatim(),
            ),
            _ => joined(self.components.skip(start)),
        }
    }
}

/// Whether a character stands between the names of a path.
pub(crate) fn separates(c: char, main: Separator, verbatim: bool) -> (separator: bool)
    ensures
        separator == is_separator(c, main, verbatim),
{
    match main {
        Separator::Slash => c == '/',
        Separator::Backslash => c == '\\' || !verbatim && c == '/',
    }
}

/// Where the first name from index `from` on begins.
fn skip_front(chars: &Vec<char>, from: usize, main: Separator, verbatim: bool) -> (at: usize)
    requires
        from <= chars.len(),
    ensures
        from <= at <= chars.len(),
        chars@.skip(at as int) == trimmed_front(chars@.skip(from as int), main, verbatim),
{
    let mut i: usize = from;
    while i < chars.len()
        invariant
            from <= i <= chars.len(),
            trimmed_front(chars@.skip(i as int), main, verbatim) == trimmed_front(
                chars@.skip(from as int),
                main,
                verbatim,
            ),
        decreases chars.len() - i,
    {
        assert(chars@.skip(i as int).skip(1) =~= chars@.skip(i + 1));
        let dot = !verbatim && chars[i] == '.' && (i + 1 == chars.len() || separates(
            chars[i + 1],
            main,
            verbatim,
        ));
        if !separates(chars[i], main, verbatim) && !dot {
            return i;
        }
        i += 1;
    }
    i
}

/// Where the last name ends.
fn skip_back(chars: &Vec<char>, from: usize, main: Separator, verbatim: bool) -> (end: usize)
    requires
        from <= chars.len(),
    ensures
        from <= end <= chars.len(),
        chars@.subrange(from as int, end as int) == trimmed_back(
            chars@.skip(from as int),
            main,
            verbatim,
        ),
{
    let mut i: usize = chars.len();
    assert(chars@.subrange(from as int, i as int) =~= chars@.skip(from as int));
    while i > from
        invariant
            from <= i <= chars.len(),
            trimmed_back(chars@.subrange(from as int, i as int), main, verbatim) == trimmed_back(
                chars@.skip(from as int),
                main,
                verbatim,
            ),
        decreases i,
    {
        let ghost now = chars@.subrange(from as int, i as int);
        assert(now.drop_last() =~= chars@.subrange(from as int, i - 1));
        assert(now[now.len() - 1] == chars@[i - 1]);
        let dot = !verbatim && chars[i - 1] == '.' && (i - 1 == from || separates(
            chars[i - 2],
            main,
            verbatim,
        ));
        if !separates(chars[i - 1], main, verbatim) && !dot {
            return i;
        }
        i -= 1;
    }
    i
}

/// Where the name at index `from` ends.
fn skip_name(chars: &Vec<char>, from: usize, main: Separator, verbatim: bool) -> (at: usize)
    requires
        from <= chars.len(),
    ensures
        from <= at <= chars.len(),
        at - from == name_len(chars@.skip(from as int), main, verbatim),
{
    let mut i: usize = from;
    while i < chars.len() && !separates(chars[i], main, verbatim)
        invariant
            from <= i <= chars.len(),
            i - from + name_len(chars@.skip(i as int), main, verbatim) == name_len(
                chars@.skip(from as int),
                main,
                verbatim,
            ),
        decreases chars.len() - i,
    {
        assert(chars@.skip(i as int).skip(1) =~= chars@.skip(i + 1));
        i += 1;
    }
    i
}

/// What is left of a text behind a prefix and its first `names` names.
fn text_after_names(
    text: &str,
    prefix: usize,
    names: usize,
    main: Separator,
    verbatim: bool,
) -> (rest: String)
    requires
        prefix <= text@.len(),
    ensures
        rest@ == after_names(text@.skip(prefix as int), names as nat, main, verbatim),
{
    let chars = chars_of(text);
    let mut at: usize = prefix;
    let mut left: usize = names;
    while left > 0
        invariant
            at <= chars.len(),
            chars@ == text@,
            after_names(chars@.skip(at as int), left as nat, main, verbatim) == after_names(
                text@.skip(prefix as int),
                names as nat,
                main,
                verbatim,
            ),
        decreases left,
    {
        let begin = skip_front(&chars, at, main, verbatim);
        let end = skip_name(&chars, begin, main, verbatim);
        assert(chars@.skip(begin as int).skip(end - begin) =~= chars@.skip(end as int));
        at = end;
        left -= 1;
    }
    let begin = skip_front(&chars, at, main, verbatim);
    let end = skip_back(&chars, begin, main, verbatim);
    text.substring_char(begin, end).to_owned()
}

/// The text shown for one component.
fn show_component(component: &PathComponent) -> (text: String)
    ensures
        text@ == component_text(component@),
{
    proof {
        reveal_strlit("/");
        reveal_strlit(".");
        reveal_strlit("..");
    }
    match component {
        PathComponent::Prefix(PathName::Text(name)) => name.clone(),
        PathComponent::Prefix(PathName::Raw(bytes)) => decode_lossy(bytes),
        PathComponent::RootDir => {
            let text: String = "/".to_owned();
            assert(text@ =~= seq!['/']);
            text
        },
        PathComponent::CurDir => {
            let text: String = ".".to_owned();
            assert(text@ =~= seq!['.']);
            text
        },
        PathComponent::ParentDir => {
            let text: String = "..".to_owned();
            assert(text@ =~= seq!['.', '.']);
            text
        },
        PathComponent::Normal(PathName::Text(name)) => name.clone(),
        PathComponent::Normal(PathName::Raw(bytes)) => decode_lossy(bytes),
    }
}

impl HostPath {
    /// Read a path from its text.
    pub fn new(text: &str) -> (path: HostPath)
        ensures
            portable(text@) ==> path@.components == slash_components(text@),
            portable(text@) && path@.absolute ==> text@.len() > 0 && text@[0] == '/',
            path@.spelling == Some(text@),
            may_split(text, path.components),
            may_be_absolute(text, path.absolute),
    {
        HostPath {
            absolute: text_is_absolute(text),
            components: split_components(text),
            spelling: Some(text.to_owned()),
        }
    }

    /// Whether the path is absolute and free of `.` and `..`.
    pub fn is_safe_absolute(&self) -> (safe: bool)
        ensures
            safe == self@.safe_absolute(),
    {
        if !self.absolute {
            return false;
        }
        let mut i: usize = 0;
        while i < self.components.len()
            invariant
                i <= self.components.len(),
                self.absolute,
                forall|k: int|
                    0 <= k < i ==> !(#[trigger] self@.components[k] is ParentDir)
                        && !(self@.components[k] is CurDir),
            decreases self.components.len() - i,
        {
            assert(self@.components[i as int] == self.components@[i as int]@);
            match &self.components[i] {
                PathComponent::ParentDir | PathComponent::CurDir => {
                    return false;
                },
                _ => {},
            }
            i += 1;
        }
        true
    }

    /// Whether the whole components of `base` open this path.
    pub fn starts_with(&self, base: &HostPath) -> (starts: bool)
        ensures
            starts == self@.starts_with(base@),
    {
        if base.components.len() > self.components.len() {
            return false;
        }
        let mut i: usize = 0;
        while i < base.components.len()
            invariant
                i <= base.components.len() <= self.components.len(),
                forall|k: int|
                    0 <= k < i ==> alike(#[trigger] self@.components[k], base@.components[k]),
            decreases base.components.len() - i,
        {
            if !same_component(&self.components[i], &base.components[i]) {
                assert(!alike(self@.components[i as int], base@.components[i as int]));
                return false;
            }
            i += 1;
        }
        true
    }

    /// The text shown for the path: as it was given, or else with `/` between names.
    pub fn to_text(&self) -> (text: String)
        ensures
            text@ == self@.shown(),
    {
        match &self.spelling {
            Some(text) => text.clone(),
            None => {
                assert(self@.components.skip(0) =~= self@.components);
                self.text_after(0)
            },
        }
    }

    /// The components from index `start` on, written out with `/` between names.
    pub fn text_after(&self, start: usize) -> (text: String)
        requires
            start <= self.components.len(),
        ensures
            text@ == joined(self@.components.skip(start as int)),
    {
        let mut text = String::new();
        let mut i: usize = start;
        assert(self@.components.subrange(start as int, start as int) =~= Seq::empty());
        while i < self.components.len()
            invariant
                start <= i <= self.components.len(),
                text@ == joined(self@.components.subrange(start as int, i as int)),
            decreases self.components.len() - i,
        {
            let ghost before = self@.components.subrange(start as int, i as int);
            let ghost after = self@.components.subrange(start as int, i + 1);
            assert(after.drop_last() =~= before);
            assert(after.last() == self.components@[i as int]@);
            if i > start {
                assert(before.last() == self.components@[i - 1]@);
                match &self.components[i - 1] {
                    PathComponent::RootDir | PathComponent::Prefix(_) => {},
                    _ => {
                        proof {
                            reveal_strlit("/");
                        }
                        assert("/"@ =~= seq!['/']);
                        text.append("/");
                    },
                }
            }
            let shown = show_component(&self.components[i]);
            text.append(shown.as_str());
            assert(text@ =~= joined(after));
            i += 1;
        }
        assert(self@.components.subrange(start as int, i as int) =~= self@.components.skip(
            start as int,
        ));
        text
    }

    /// How many of the components before index `end` are ordinary names.
    fn names_before(&self, end: usize) -> (names: usize)
        requires
            end <= self.components.len(),
        ensures
            names as nat == count_names(self@.components.take(end as int)),
    {
        let mut names: usize = 0;
        let mut i: usize = 0;
        assert(self@.components.take(0) =~= Seq::empty());
        while i < end
            invariant
                i <= end <= self.components.len(),
                names <= i,
                names as nat == count_names(self@.components.take(i as int)),
            decreases end - i,
        {
            let ghost longer = self@.components.take(i + 1);
            assert(longer.drop_last() =~= self@.components.take(i as int));
            assert(longer.last() == self.components@[i as int]@);
            match &self.components[i] {
                PathComponent::Normal(_) => {
                    names += 1;
                },
                _ => {},
            }
            i += 1;
        }
        names
    }

    /// The text of the platform prefix that opens the path, if there is one.
    fn prefix(&self) -> (text: String)
        ensures
            text@ == self@.prefix_text(),
    {
        if self.components.len() > 0 {
            assert(self@.components[0] == self.components@[0]@);
            match &self.components[0] {
                PathComponent::Prefix(_) => {
                    return show_component(&self.components[0]);
                },
                _ => {},
            }
        }
        let text = String::new();
        assert(text@ =~= Seq::empty());
        text
    }

    /// The part of the path from component `start` on: as it was given, or else its components.
    ///
    /// `main` is the separator that the host writes.
    pub fn part_from(&self, start: usize, main: Separator) -> (text: String)
        requires
            start <= self.components.len(),
        ensures
            text@ == self@.part_from(start as int, main),
    {
        let prefix = chars_of(self.prefix().as_str());
        match &self.spelling {
            Some(text) => {
                if prefix.len() <= text.as_str().unicode_len() {
                    let verbatim = prefix.len() >= 4 && prefix[0] == '\\' && prefix[1] == '\\'
                        && prefix[2] == '?' && prefix[3] == '\\';
                    let names = self.names_before(start);
                    return text_after_names(text.as_str(), prefix.len(), names, main, verbatim);
                }
            },
            None => {},
        }
        self.text_after(start)
    }

    /// Whether every name from index `start` on is valid text.
    pub fn is_text_after(&self, start: usize) -> (valid: bool)
        requires
            start <= self.components.len(),
        ensures
            valid == all_text(self@.components.skip(start as int)),
    {
        let ghost rest = self@.components.skip(start as int);
        let mut i: usize = start;
        while i < self.components.len()
            invariant
                start <= i <= self.components.len(),
                rest == self@.components.skip(start as int),
                forall|k: int| 0 <= k < i - start ==> is_text(#[trigger] rest[k]),
            decreases self.components.len() - i,
        {
            assert(rest[i - start] == self.components@[i as int]@);
            match &self.components[i] {
                PathComponent::Prefix(PathName::Raw(_)) | PathComponent::Normal(
                    PathName::Raw(_),
                ) => {
                    return false;
                },
                _ => {},
            }
            i += 1;
        }
        true
    }
}

/// Whether a component is valid text.
pub open spec fn is_text(component: ComponentView) -> bool {
    match component {
        ComponentView::Prefix(name) => name is Text,
        ComponentView::Normal(name) => name is Text,
        _ => true,
    }
}

/// Whether all components are valid text.
pub open spec fn all_text(components: Seq<ComponentView>) -> bool {
    forall|i: int| 0 <= i < components.len() ==> is_text(#[trigger] components[i])
}

impl Clone for HostPath {
    fn clone(&self) -> (copy: Self)
        ensures
            copy@ == self@,
    {
        let mut components: Vec<PathComponent> = Vec::new();
        let mut i: usize = 0;
        while i < self.components.len()
            invariant
                i <= self.components.len(),
                components.len() == i,
                forall|k: int| 0 <= k < i ==> (#[trigger] components@[k])@ == self.components@[k]@,
            decreases self.components.len() - i,
        {
            components.push(self.components[i].clone());
            i += 1;
        }
        let spelling = match &self.spelling {
            Some(text) => Some(text.clone()),
            None => None,
        };
        let copy = HostPath { absolute: self.absolute, components, spelling };
        assert(copy@ =~= self@);
        copy
    }
}

impl PartialEq for HostPath {
    fn eq(&self, other: &Self) -> (same: bool) {
        self.absolute == other.absolute && self.components.len() == other.components.len()
            && self.starts_with(other)
    }
}

impl vstd::std_specs::cmp::PartialEqSpecImpl for HostPath {
    open spec fn obeys_eq_spec() -> bool {
        true
    }

    open spec fn eq_spec(&self, other: &Self) -> bool {
        self@.same_path(other@)
    }
}

/// Whether every answer of `canonicalize` is the one that `canonical` gives.
pub open spec fn answers_as<F: Fn(&HostPath) -> Option<HostPath>>(
    canonicalize: F,
    canonical: spec_fn(PathView) -> Option<PathView>,
) -> bool {
    forall|path: &HostPath, answer: Option<HostPath>| #[trigger]
        call_ensures(canonicalize, (path,), answer) ==> path_option(answer) == canonical(path@)
}

/// Whether `canonicalize` may answer `answer` for a path.
pub open spec fn may_answer<F: Fn(&HostPath) -> Option<HostPath>>(
    canonicalize: F,
    path: PathView,
    answer: Option<PathView>,
) -> bool {
    exists|asked: &HostPath, given: Option<HostPath>|
        asked@ == path && path_option(given) == answer && #[trigger] call_ensures(
            canonicalize,
            (asked,),
            given,
        )
}

/// The first components of a path, as a path.
pub open spec fn ancestor(path: PathView, len: int) -> PathView {
    if len == path.components.len() {
        path
    } else {
        PathView {
            absolute: path.absolute,
            components: path.components.take(len),
            spelling: None,
        }
    }
}

/// What a path resolves to where its first `len` components resolve to `base`: the rest is kept.
pub open spec fn extended(base: PathView, path: PathView, len: int) -> PathView {
    if len == path.components.len() {
        base
    } else {
        PathView {
            absolute: base.absolute,
            components: base.components + path.components.skip(len),
            spelling: None,
        }
    }
}

/// Whether `canonicalize` may have found none of the ancestors of a path that are longer than
/// `len`, the path itself included, and each of those ends in an ordinary name.
pub open spec fn missing_above<F: Fn(&HostPath) -> Option<HostPath>>(
    canonicalize: F,
    path: PathView,
    len: int,
) -> bool {
    forall|k: int|
        len < k <= path.components.len() ==> may_answer(
            canonicalize,
            #[trigger] ancestor(path, k),
            None,
        ) && path.components[k - 1] is Normal
}

/// Whether a path may resolve to `found`, whatever `canonicalize` answers.
///
/// It resolves to an answer for its longest ancestor that was found, with the names below that
/// ancestor kept. It does not resolve if none was found up to one that does not end in a name.
pub open spec fn may_resolve<F: Fn(&HostPath) -> Option<HostPath>>(
    canonicalize: F,
    path: PathView,
    found: Option<PathView>,
) -> bool {
    match found {
        Some(found) => exists|len: int, base: PathView|
            #![trigger extended(base, path, len)]
            0 <= len <= path.components.len() && missing_above(canonicalize, path, len)
                && may_answer(canonicalize, ancestor(path, len), Some(base)) && found == extended(
                base,
                path,
                len,
            ),
        None => exists|len: int|
            0 <= len <= path.components.len() && missing_above(canonicalize, path, len)
                && may_answer(canonicalize, #[trigger] ancestor(path, len), None) && !ancestor(
                path,
                len,
            ).has_file_name(),
    }
}

/// How the resolution of a path follows from that of its parent.
proof fn lemma_resolves_through_parent<F: Fn(&HostPath) -> Option<HostPath>>(
    canonicalize: F,
    path: PathView,
    found: Option<PathView>,
)
    requires
        path.has_file_name(),
        may_answer(canonicalize, path, None),
        may_resolve(canonicalize, path.parent(), found),
    ensures
        may_resolve(
            canonicalize,
            path,
            match found {
                Some(base) => Some(base.child(path.components.last())),
                None => None,
            },
        ),
{
    let parent = path.parent();
    let whole = path.components.len() as int;
    assert(ancestor(path, whole) == path);
    assert forall|k: int| 0 <= k < whole implies #[trigger] ancestor(path, k) == ancestor(
        parent,
        k,
    ) by {
        assert(ancestor(path, k) =~= ancestor(parent, k));
    }
    assert forall|len: int|
        0 <= len < whole && missing_above(canonicalize, parent, len) implies #[trigger]
        missing_above(canonicalize, path, len) by {
        assert forall|k: int| len < k <= whole implies may_answer(
            canonicalize,
            #[trigger] ancestor(path, k),
            None,
        ) && path.components[k - 1] is Normal by {
            if k < whole {
                assert(ancestor(path, k) == ancestor(parent, k));
                assert(parent.components[k - 1] == path.components[k - 1]);
            }
        }
    }
    match found {
        Some(resolved) => {
            let (len, base) = choose|len: int, base: PathView|
                #![trigger extended(base, parent, len)]
                0 <= len <= parent.components.len() && missing_above(canonicalize, parent, len)
                    && may_answer(canonicalize, ancestor(parent, len), Some(base)) && resolved
                    == extended(base, parent, len);
            assert(missing_above(canonicalize, path, len));
            assert(ancestor(path, len) == ancestor(parent, len));
            assert(path.components.skip(len) =~= parent.components.skip(len).push(
                path.components.last(),
            ));
            assert(resolved.child(path.components.last()) =~= extended(base, path, len));
        },
        None => {
            let len = choose|len: int|
                0 <= len <= parent.components.len() && missing_above(canonicalize, parent, len)
                    && may_answer(canonicalize, #[trigger] ancestor(parent, len), None)
                    && !ancestor(parent, len).has_file_name();
            assert(missing_above(canonicalize, path, len));
            assert(ancestor(path, len) == ancestor(parent, len));
        },
    }
}

/// Resolve a path through its nearest existing ancestor.
///
/// The components below that ancestor are kept as they are. A path with no existing ancestor does
/// not resolve.
pub fn canonicalize_with_existing_parent<F: Fn(&HostPath) -> Option<HostPath>>(
    path: &HostPath,
    canonicalize: &F,
) -> (found: Option<HostPath>)
    requires
        forall|asked: &HostPath| call_requires(*canonicalize, (asked,)),
    ensures
        may_resolve(*canonicalize, path@, path_option(found)),
        forall|canonical: spec_fn(PathView) -> Option<PathView>|
            #[trigger] answers_as(*canonicalize, canonical) ==> path_option(found)
                == path@.resolved(canonical),
    decreases path.components.len(),
{
    let answer = canonicalize(path);
    assert(call_ensures(*canonicalize, (path,), answer));
    assert(may_answer(*canonicalize, path@, path_option(answer)));
    let ghost whole = path@.components.len() as int;
    assert(ancestor(path@, whole) == path@);
    match answer {
        Some(found) => {
            assert(extended(found@, path@, whole) == found@);
            Some(found)
        },
        None => {
            if path.components.len() == 0 {
                return None;
            }
            let last: usize = path.components.len() - 1;
            assert(path@.components.last() == path.components@[last as int]@);
            match &path.components[last] {
                PathComponent::Normal(name) => {
                    let mut parent = path.clone();
                    parent.components.pop();
                    parent.spelling = None;
                    assert(parent@ =~= path@.parent());
                    let above = canonicalize_with_existing_parent(&parent, canonicalize);
                    proof {
                        lemma_resolves_through_parent(*canonicalize, path@, path_option(above));
                    }
                    match above {
                        Some(found) => {
                            let mut kept = found;
                            let ghost base = kept@;
                            let component = PathComponent::Normal(name.clone());
                            let ghost added = component@;
                            kept.components.push(component);
                            kept.spelling = None;
                            assert(kept@ =~= base.child(added));
                            Some(kept)
                        },
                        None => None,
                    }
                },
                _ => None,
            }
        },
    }
}

/// A resolved path is the resolution of the nearest existing ancestor followed by the rest of the
/// path as it was, which consists of ordinary names only; nothing between them exists.
pub proof fn law_resolution_keeps_the_missing_names(
    path: PathView,
    canonical: spec_fn(PathView) -> Option<PathView>,
) -> (len: int)
    requires
        path.resolved(canonical) is Some,
    ensures
        0 <= len <= path.components.len(),
        canonical(ancestor(path, len)) is Some,
        path.resolved(canonical)->0.absolute == canonical(ancestor(path, len))->0.absolute,
        path.resolved(canonical)->0.components == canonical(ancestor(path, len))->0.components
            + path.components.skip(len),
        forall|k: int| len < k <= path.components.len() ==> canonical(#[trigger] ancestor(path, k))
            is None,
        forall|k: int|
            len <= k < path.components.len() ==> #[trigger] path.components[k] is Normal,
    decreases path.components.len(),
{
    let whole = path.components.len() as int;
    assert(ancestor(path, whole) =~= path);
    if canonical(path) is Some {
        assert(path.resolved(canonical)->0.components =~= canonical(path)->0.components
            + path.components.skip(whole));
        whole
    } else {
        let parent = path.parent();
        assert(path.has_file_name());
        assert(parent.resolved(canonical) is Some);
        let len = law_resolution_keeps_the_missing_names(parent, canonical);
        assert forall|k: int| 0 <= k < whole implies #[trigger] ancestor(path, k) == ancestor(
            parent,
            k,
        ) by {
            assert(ancestor(path, k) =~= ancestor(parent, k));
        }
        assert forall|k: int| len <= k < whole implies #[trigger] path.components[k] is Normal by {
            if k < whole - 1 {
                assert(parent.components[k] == path.components[k]);
            }
        }
        assert(path.components.skip(len) =~= parent.components.skip(len).push(
            path.components.last(),
        ));
        assert(path.resolved(canonical)->0.components =~= canonical(
            ancestor(path, len),
        )->0.components + path.components.skip(len));
        len
    }
}

/// Where the answers for each path never differ, what a path may resolve to is what it resolves to.
pub proof fn law_settled_answers_settle_resolution<F: Fn(&HostPath) -> Option<HostPath>>(
    canonicalize: F,
    path: PathView,
    found: Option<PathView>,
    canonical: spec_fn(PathView) -> Option<PathView>,
)
    requires
        answers_as(canonicalize, canonical),
        may_resolve(canonicalize, path, found),
    ensures
        found == path.resolved(canonical),
    decreases path.components.len(),
{
    let whole = path.components.len() as int;
    let parent = path.parent();
    assert(ancestor(path, whole) == path);
    assert forall|k: int| 0 <= k < whole implies #[trigger] ancestor(path, k) == ancestor(
        parent,
        k,
    ) by {
        assert(ancestor(path, k) =~= ancestor(parent, k));
    }
    assert forall|len: int|
        0 <= len < whole && missing_above(canonicalize, path, len) implies #[trigger]
        missing_above(canonicalize, parent, len) by {
        assert forall|k: int| len < k <= whole - 1 implies may_answer(
            canonicalize,
            #[trigger] ancestor(parent, k),
            None,
        ) && parent.components[k - 1] is Normal by {
            assert(ancestor(path, k) == ancestor(parent, k));
            assert(parent.components[k - 1] == path.components[k - 1]);
        }
    }
    match found {
        Some(resolved) => {
            let (len, base) = choose|len: int, base: PathView|
                #![trigger extended(base, path, len)]
                0 <= len <= whole && missing_above(canonicalize, path, len) && may_answer(
                    canonicalize,
                    ancestor(path, len),
                    Some(base),
                ) && resolved == extended(base, path, len);
            if len < whole {
                assert(missing_above(canonicalize, parent, len));
                assert(ancestor(path, len) == ancestor(parent, len));
                assert(may_answer(canonicalize, ancestor(path, whole), None));
                let shorter = extended(base, parent, len);
                assert(may_resolve(canonicalize, parent, Some(shorter)));
                law_settled_answers_settle_resolution(
                    canonicalize,
                    parent,
                    Some(shorter),
                    canonical,
                );
                assert(path.components.skip(len) =~= parent.components.skip(len).push(
                    path.components.last(),
                ));
                assert(resolved =~= shorter.child(path.components.last()));
            }
        },
        None => {
            let len = choose|len: int|
                0 <= len <= whole && missing_above(canonicalize, path, len) && may_answer(
                    canonicalize,
                    #[trigger] ancestor(path, len),
                    None,
                ) && !ancestor(path, len).has_file_name();
            if len < whole {
                assert(missing_above(canonicalize, parent, len));
                assert(ancestor(path, len) == ancestor(parent, len));
                assert(may_answer(canonicalize, ancestor(path, whole), None));
                law_settled_answers_settle_resolution(canonicalize, parent, None, canonical);
            }
        },
    }
}

/// The length of a name is that of a piece where `/` is the only separator.
proof fn lemma_name_is_piece(text: Seq<char>)
    ensures
        name_len(text, Separator::Slash, false) == piece_len(text),
        piece_len(text) <= text.len(),
    decreases text.len(),
{
    if text.len() > 0 {
        lemma_name_is_piece(text.skip(1));
    }
}

/// What opens a text before its first name makes no component.
proof fn lemma_front_is_no_component(text: Seq<char>)
    ensures
        ({
            let rest = trimmed_front(text, Separator::Slash, false);
            &&& piece_components(pieces(rest), false) == piece_components(pieces(text), false)
            &&& rest.len() <= text.len()
            &&& rest.len() > 0 ==> rest[0] != '/' && !(rest[0] == '.' && (rest.len() == 1 || rest[1]
                == '/'))
        }),
    decreases text.len(),
{
    if text.len() > 0 {
        if text[0] == '/' {
            lemma_front_is_no_component(text.skip(1));
        } else if text[0] == '.' && (text.len() == 1 || text[1] == '/') {
            let after = text.skip(1);
            lemma_front_is_no_component(after);
            assert(piece_len(after) == 0);
            assert(piece_len(text) == 1);
            assert(text.take(1) =~= seq!['.']);
            assert(pieces(text).skip(1) =~= pieces(after));
        }
    }
}

/// The pieces up to a separator and those behind it are independent.
proof fn lemma_pieces_split(a: Seq<char>, b: Seq<char>)
    requires
        a.len() == 0 || a.last() == '/',
    ensures
        pieces(a + b) == pieces(a) + pieces(b),
        a.len() > 0 ==> piece_len(a + b) == piece_len(a) < a.len(),
    decreases a.len(),
{
    if a.len() == 0 {
        assert(a + b =~= b);
        assert(pieces(a) + pieces(b) =~= pieces(b));
    } else {
        let n = piece_len(a) as int;
        assert((a + b).skip(1) =~= a.skip(1) + b);
        lemma_pieces_split(a.skip(1), b);
        if a[0] != '/' {
            assert(piece_len(a) == 1 + piece_len(a.skip(1)));
            assert((a + b).take(n) =~= a.take(n));
            assert((a + b).skip(n) =~= a.skip(n) + b);
            lemma_pieces_split(a.skip(n), b);
            assert(pieces(a + b) =~= pieces(a) + pieces(b));
        }
    }
}

/// A separator at the end makes no piece.
proof fn lemma_closing_separator(text: Seq<char>)
    requires
        text.len() > 0,
        text.last() == '/',
    ensures
        pieces(text) == pieces(text.drop_last()),
        piece_len(text) == piece_len(text.drop_last()) < text.len(),
    decreases text.len(),
{
    let short = text.drop_last();
    if text.len() == 1 {
        assert(short =~= Seq::empty());
        assert(text.skip(1) =~= Seq::empty());
    } else {
        assert(text.skip(1).drop_last() =~= short.skip(1));
        lemma_closing_separator(text.skip(1));
        if text[0] != '/' {
            let n = piece_len(text) as int;
            assert(text.take(n) =~= short.take(n));
            assert(text.skip(n).drop_last() =~= short.skip(n));
            lemma_closing_separator(text.skip(n));
        }
    }
}

/// A `.` that does not open a path makes no component.
proof fn lemma_closing_dot(list: Seq<Seq<char>>)
    ensures
        piece_components(list.push(seq!['.']), false) == piece_components(list, false),
    decreases list.len(),
{
    let longer = list.push(seq!['.']);
    if list.len() == 0 {
        assert(longer[0] == seq!['.']);
        assert(longer.skip(1) =~= list);
    } else {
        assert(longer[0] == list[0]);
        assert(longer.skip(1) =~= list.skip(1).push(seq!['.']));
        lemma_closing_dot(list.skip(1));
    }
}

/// What closes a text behind its last name makes no component.
proof fn lemma_back_is_no_component(text: Seq<char>)
    ensures
        ({
            let rest = trimmed_back(text, Separator::Slash, false);
            &&& piece_components(pieces(rest), false) == piece_components(pieces(text), false)
            &&& rest.is_prefix_of(text)
            &&& rest != seq!['.']
        }),
    decreases text.len(),
{
    let last = text.len() - 1;
    let rest = trimmed_back(text, Separator::Slash, false);
    if text.len() > 0 {
        let short = text.drop_last();
        if text[last] == '/' {
            lemma_back_is_no_component(short);
            lemma_closing_separator(text);
            assert(rest =~= text.take(rest.len() as int));
        } else if text[last] == '.' && (last == 0 || text[last - 1] == '/') {
            lemma_back_is_no_component(short);
            let dot = seq!['.'];
            assert(text =~= short + dot);
            lemma_pieces_split(short, dot);
            assert(dot.skip(1) =~= Seq::empty());
            assert(piece_len(dot) == 1 + piece_len(dot.skip(1)));
            assert(dot.take(1) =~= dot);
            assert(pieces(dot.skip(1)) == Seq::<Seq<char>>::empty());
            assert(pieces(dot) =~= seq![dot]);
            assert(pieces(text) =~= pieces(short).push(dot));
            lemma_closing_dot(pieces(short));
            assert(rest =~= text.take(rest.len() as int));
        } else {
            assert(rest =~= text.take(rest.len() as int));
        }
    }
}

/// A text begins with the component that its first name stands for.
proof fn lemma_first_name(text: Seq<char>)
    requires
        text.len() > 0,
        text[0] != '/',
        !(text[0] == '.' && (text.len() == 1 || text[1] == '/')),
    ensures
        ({
            let all = piece_components(pieces(text), false);
            &&& all.len() > 0
            &&& all.skip(1) == piece_components(pieces(text.skip(piece_len(text) as int)), false)
        }),
{
    let n = piece_len(text) as int;
    lemma_name_is_piece(text);
    assert(n == 1 + piece_len(text.skip(1)));
    let list = pieces(text);
    assert(list[0] == text.take(n));
    assert(list.skip(1) =~= pieces(text.skip(n)));
    if text.take(n) =~= seq!['.'] {
        assert(text.take(n)[0] == text[0]);
        assert(n == 1);
    }
    let all = piece_components(list, false);
    assert(all.skip(1) =~= piece_components(list.skip(1), false));
}

/// What is left behind some names has the components behind those names.
proof fn lemma_rest_has_the_rest(text: Seq<char>, names: nat)
    requires
        names <= piece_components(pieces(text), false).len(),
    ensures
        ({
            let rest = after_names(text, names, Separator::Slash, false);
            slash_components(rest) == piece_components(pieces(text), false).skip(names as int)
        }),
    decreases names,
{
    let all = piece_components(pieces(text), false);
    let front = trimmed_front(text, Separator::Slash, false);
    lemma_front_is_no_component(text);
    if names == 0 {
        let rest = trimmed_back(front, Separator::Slash, false);
        lemma_back_is_no_component(front);
        assert(all.skip(0) =~= all);
        if rest.len() > 0 {
            assert(rest[0] == front[0]);
            if rest.len() > 1 {
                assert(rest[1] == front[1]);
            } else if rest[0] == '.' {
                assert(rest =~= seq!['.']);
            }
            let n = piece_len(rest) as int;
            lemma_name_is_piece(rest);
            assert(n == 1 + piece_len(rest.skip(1)));
            assert(pieces(rest)[0] == rest.take(n));
            if rest.take(n) =~= seq!['.'] {
                assert(rest.take(n)[0] == rest[0]);
                assert(n == 1);
            }
        }
    } else {
        lemma_first_name(front);
        lemma_name_is_piece(front);
        let behind = front.skip(piece_len(front) as int);
        lemma_rest_has_the_rest(behind, (names - 1) as nat);
        assert(all.skip(1).skip(names - 1) =~= all.skip(names as int));
    }
}

/// Every component of an absolute path without `..`, other than its root, is an ordinary name.
proof fn lemma_names_counted(components: Seq<ComponentView>, start: int)
    requires
        1 <= start <= components.len(),
        components[0] is RootDir,
        forall|i: int| 1 <= i < components.len() ==> #[trigger] components[i] is Normal,
    ensures
        count_names(components.take(start)) == start - 1,
    decreases start,
{
    let taken = components.take(start);
    assert(taken.last() == components[start - 1]);
    assert(taken.drop_last() =~= components.take(start - 1));
    if start > 1 {
        lemma_names_counted(components, start - 1);
    } else {
        assert(count_names(components.take(0)) == 0);
    }
}

/// Pieces stand for names and parent segments only, where none of them opens a relative path.
proof fn lemma_pieces_are_names(list: Seq<Seq<char>>)
    ensures
        forall|i: int|
            0 <= i < piece_components(list, false).len() ==> (#[trigger] piece_components(
                list,
                false,
            )[i]) is Normal || piece_components(list, false)[i] is ParentDir,
    decreases list.len(),
{
    if list.len() > 0 {
        lemma_pieces_are_names(list.skip(1));
    }
}

/// Where the host writes `/`, the part of a path from some component on, kept as it was given, has
/// exactly the components from there on.
pub proof fn law_parts_keep_their_components(path: PathView, text: Seq<char>, start: int)
    requires
        portable(text),
        text.len() > 0 && text[0] == '/',
        path.spelling == Some(text),
        path.components == slash_components(text),
        path.safe_absolute(),
        1 <= start <= path.components.len(),
    ensures
        slash_components(path.part_from(start, Separator::Slash)) == path.components.skip(start),
{
    let all = piece_components(pieces(text), false);
    let components = path.components;
    assert(components =~= seq![ComponentView::RootDir] + all);
    lemma_pieces_are_names(pieces(text));
    assert forall|i: int| 1 <= i < components.len() implies #[trigger] components[i] is Normal by {
        assert(components[i] == all[i - 1]);
    }
    lemma_names_counted(components, start);
    assert(text.skip(0) =~= text);
    assert(path.prefix_text() =~= Seq::empty());
    lemma_rest_has_the_rest(text, (start - 1) as nat);
    assert(components.skip(start) =~= all.skip(start - 1));
}

/// A path may be granted exactly if it is absolute and has neither a `.` nor a `..` component.
pub proof fn law_safe_paths_never_climb(path: PathView)
    ensures
        path.safe_absolute() <==> path.absolute && !path.components.contains(ComponentView::CurDir)
            && !path.components.contains(ComponentView::ParentDir),
{
    if path.absolute && !path.components.contains(ComponentView::CurDir)
        && !path.components.contains(ComponentView::ParentDir) {
        assert forall|i: int| 0 <= i < path.components.len() implies !(
        #[trigger] path.components[i] is ParentDir) && !(path.components[i] is CurDir) by {
            assert(path.components.contains(path.components[i]));
        }
    }
}

/// Components that are no platform prefix name the same thing only if they are the same; a prefix
/// names the same thing as itself, as itself with a separator written the other way unless it is
/// verbatim, and a drive as itself with its letter in the other case. Prefixes that differ in
/// anything else do not.
pub proof fn law_components_alike(a: ComponentView, b: ComponentView)
    ensures
        a == b ==> alike(a, b),
        alike(a, b) == alike(b, a),
        !(a is Prefix) || !(b is Prefix) ==> (alike(a, b) <==> a == b),
        a matches ComponentView::Prefix(PathNameView::Text(x)) ==> (
        b matches ComponentView::Prefix(PathNameView::Text(y)) ==> {
            let marked = |text: Seq<char>|
                text.len() >= 4 && text[0] == '\\' && text[1] == '\\' && text[2] == '?' && text[3]
                    == '\\';
            let either = |c: char| c == '/' || c == '\\';
            let cased = |c: char, d: char|
                'a' <= c <= 'z' && d as int == c as int - 32 || 'a' <= d <= 'z' && c as int == d as int
                    - 32;
            &&& alike(a, b) ==> x.len() == y.len() && forall|i: int|
                0 <= i < x.len() ==> #[trigger] x[i] == y[i] || either(x[i]) && either(y[i]) || cased(
                    x[i],
                    y[i],
                )
            &&& x.len() == 2 && y.len() == 2 && x[1] == ':' && y[1] == ':' && cased(x[0], y[0])
                ==> alike(a, b)
            &&& !marked(x) && !marked(y) && x.len() == y.len() && (forall|i: int|
                0 <= i < x.len() ==> #[trigger] x[i] == y[i] || either(x[i]) && either(y[i]))
                ==> alike(a, b)
        }),
{
    match (a, b) {
        (ComponentView::Prefix(x), ComponentView::Prefix(y)) => {
            let p = name_codes(x);
            let q = name_codes(y);
            if same_up_to_slashes(p, q) {
                assert forall|i: int| 0 <= i < q.len() implies #[trigger] q[i] == p[i] || is_slash(
                    q[i],
                ) && is_slash(p[i]) by {
                    assert(p[i] == q[i] || is_slash(p[i]) && is_slash(q[i]));
                }
            }
            if same_up_to_slashes(q, p) {
                assert forall|i: int| 0 <= i < p.len() implies #[trigger] p[i] == q[i] || is_slash(
                    p[i],
                ) && is_slash(q[i]) by {
                    assert(q[i] == p[i] || is_slash(q[i]) && is_slash(p[i]));
                }
            }
            match (x, y) {
                (PathNameView::Text(s), PathNameView::Text(t)) => {
                    assert forall|i: int| 0 <= i < s.len() implies #[trigger] p[i]
                        == s[i] as int by {}
                    assert forall|i: int| 0 <= i < t.len() implies #[trigger] q[i]
                        == t[i] as int by {}
                    assert(p.len() == s.len() && q.len() == t.len());
                    if alike(a, b) && s != t {
                        if is_drive(p) && is_drive(q) && drive_letter(p) == drive_letter(q)
                            && p.len() == q.len() {
                            let at = s.len() - 2;
                            assert(p[at] == s[at] as int && q[at] == t[at] as int);
                            assert(p[at + 1] == s[at + 1] as int && q[at + 1] == t[at + 1] as int);
                            if at == 4 {
                                assert(p[0] == s[0] as int && q[0] == t[0] as int);
                                assert(p[1] == s[1] as int && q[1] == t[1] as int);
                                assert(p[2] == s[2] as int && q[2] == t[2] as int);
                                assert(p[3] == s[3] as int && q[3] == t[3] as int);
                            }
                            assert forall|i: int| 0 <= i < s.len() && i != at implies #[trigger] s[i]
                                == t[i] by {
                                assert(i == 0 || i == 1 || i == 2 || i == 3 || i == at + 1);
                            }
                        } else {
                            assert forall|i: int| 0 <= i < s.len() implies #[trigger] s[i] == t[i]
                                || is_slash(s[i] as int) && is_slash(t[i] as int) by {
                                assert(p[i] == q[i] || is_slash(p[i]) && is_slash(q[i]));
                            }
                        }
                    }
                    if s.len() == 2 && t.len() == 2 && s[1] == ':' && t[1] == ':' {
                        assert(p[0] == s[0] as int && q[0] == t[0] as int);
                        assert(p[1] == s[1] as int && q[1] == t[1] as int);
                    }
                },
                _ => {},
            }
        },
        _ => {},
    }
}

/// A path opens with a base exactly if the base is no longer than it and they agree component by
/// component; what opens with a base still does with more behind it.
pub proof fn law_paths_open_with_their_ancestors(
    path: PathView,
    base: PathView,
    component: ComponentView,
)
    ensures
        path.starts_with(base) <==> base.components.len() <= path.components.len() && forall|i: int|
            0 <= i < base.components.len() ==> alike(
                #[trigger] path.components[i],
                base.components[i],
            ),
        base.components.is_prefix_of(path.components) ==> path.starts_with(base),
        path.starts_with(path),
        path.starts_with(base) ==> path.child(component).starts_with(base),
{
    if base.components.is_prefix_of(path.components) {
        assert forall|i: int| 0 <= i < base.components.len() implies #[trigger] path.components[i]
            == base.components[i] by {
            assert(path.components.subrange(0, base.components.len() as int)[i]
                == base.components[i]);
        }
    }
    let longer = path.child(component);
    assert forall|i: int| 0 <= i < path.components.len() implies #[trigger] longer.components[i]
        == path.components[i] by {}
}

/// Two paths are the same exactly if both or neither are absolute and they agree component by
/// component; how they were spelled does not matter.
pub proof fn law_same_paths_agree_by_component(one: PathView, other: PathView)
    ensures
        one.same_path(other) <==> one.absolute == other.absolute && one.components.len()
            == other.components.len() && forall|i: int|
            0 <= i < one.components.len() ==> alike(
                #[trigger] one.components[i],
                other.components[i],
            ),
        one.absolute == other.absolute && one.components == other.components ==> one.same_path(
            other,
        ),
        one.same_path(other) == other.same_path(one),
{
    assert forall|i: int| alike(#[trigger] one.components[i], other.components[i]) == alike(
        other.components[i],
        one.components[i],
    ) by {
        law_components_alike(one.components[i], other.components[i]);
    }
    if other.same_path(one) {
        assert forall|i: int| 0 <= i < one.components.len() implies alike(
            #[trigger] one.components[i],
            other.components[i],
        ) by {
            assert(alike(other.components[i], one.components[i]));
        }
    }
    if one.same_path(other) {
        assert forall|i: int| 0 <= i < other.components.len() implies alike(
            #[trigger] other.components[i],
            one.components[i],
        ) by {
            assert(alike(one.components[i], other.components[i]));
        }
    }
}

/// A path that was given as a whole is shown as it was given; one that was put together is shown
/// name by name, each behind a slash.
pub proof fn law_paths_are_shown_as_given(path: PathView, name: Seq<char>)
    ensures
        path.spelling matches Some(text) ==> path.shown() == text,
        path.spelling is None && path.components.len() > 0 && path.components.last() is Normal
            ==> path.child(ComponentView::Normal(PathNameView::Text(name))).shown() == path.shown()
            + seq!['/'] + name,
        path.spelling is None && path.components.len() > 0 && path.components.last() is RootDir
            ==> path.child(ComponentView::Normal(PathNameView::Text(name))).shown() == path.shown()
            + name,
{
    let longer = path.child(ComponentView::Normal(PathNameView::Text(name)));
    assert(longer.components.drop_last() =~= path.components);
    assert(path.shown() + Seq::<char>::empty() =~= path.shown());
}

/// A path resolves through its longest ancestor that exists: if that is the one of some length, each
/// longer one being missing and ending in a name, the path resolves to what that ancestor resolves to
/// with the names below kept. It does not resolve if it ends in no name and is missing.
pub proof fn law_paths_resolve_through_their_longest_ancestor(
    path: PathView,
    canonical: spec_fn(PathView) -> Option<PathView>,
    len: int,
)
    requires
        0 <= len <= path.components.len(),
        canonical(ancestor(path, len)) is Some,
        forall|k: int|
            len < k <= path.components.len() ==> canonical(#[trigger] ancestor(path, k)) is None,
        forall|k: int| len <= k < path.components.len() ==> #[trigger] path.components[k] is Normal,
    ensures
        path.resolved(canonical) matches Some(found) && found.absolute == canonical(
            ancestor(path, len),
        )->0.absolute && found.components == canonical(ancestor(path, len))->0.components
            + path.components.skip(len),
    decreases path.components.len(),
{
    let whole = path.components.len() as int;
    assert(ancestor(path, whole) == path);
    if len == whole {
        assert(canonical(path)->0.components + path.components.skip(len) =~= canonical(
            path,
        )->0.components);
    } else {
        let parent = path.parent();
        assert(canonical(path) is None);
        assert(path.components[whole - 1] is Normal);
        assert forall|k: int| 0 <= k < whole implies #[trigger] ancestor(parent, k) == ancestor(
            path,
            k,
        ) by {
            assert(ancestor(path, k) =~= ancestor(parent, k));
        }
        assert forall|k: int| len <= k < parent.components.len() implies #[trigger]
            parent.components[k] is Normal by {
            assert(parent.components[k] == path.components[k]);
        }
        law_paths_resolve_through_their_longest_ancestor(parent, canonical, len);
        assert(path.components.skip(len) =~= parent.components.skip(len).push(
            path.components.last(),
        ));
        assert(path.resolved(canonical)->0.components =~= canonical(
            ancestor(path, len),
        )->0.components + path.components.skip(len));
    }
}

/// A path that is missing and does not end in a name does not resolve, and neither does any name
/// below it that is missing too.
pub proof fn law_missing_roots_do_not_resolve(
    path: PathView,
    canonical: spec_fn(PathView) -> Option<PathView>,
    name: PathNameView,
)
    requires
        canonical(path) is None,
        path.components.len() > 0 ==> !(path.components.last() is Normal),
    ensures
        path.resolved(canonical) is None,
        path.spelling is None && canonical(path.child(ComponentView::Normal(name))) is None
            ==> path.child(ComponentView::Normal(name)).resolved(canonical) is None,
{
    let longer = path.child(ComponentView::Normal(name));
    assert(longer.components.drop_last() =~= path.components);
    if path.spelling is None {
        assert(longer.parent() =~= path);
    }
}

/// What is kept of a path is cut out of what was given: one stretch of it, unchanged, that neither
/// begins nor ends with a separator.
pub proof fn law_parts_are_cut_from_the_text(
    text: Seq<char>,
    names: nat,
    main: Separator,
    verbatim: bool,
) -> (cut: (int, int))
    ensures
        0 <= cut.0 <= cut.1 <= text.len(),
        after_names(text, names, main, verbatim) == text.subrange(cut.0, cut.1),
        cut.0 < cut.1 ==> !is_separator(text[cut.0], main, verbatim) && !is_separator(
            text[cut.1 - 1],
            main,
            verbatim,
        ),
    decreases names,
{
    let from = lemma_front_is_cut(text, main, verbatim);
    let rest = text.skip(from);
    if names == 0 {
        let end = lemma_back_is_cut(rest, main, verbatim);
        assert(rest.take(end) =~= text.subrange(from, from + end));
        (from, from + end)
    } else {
        lemma_name_fits(rest, main, verbatim);
        let n = name_len(rest, main, verbatim) as int;
        let (a, b) = law_parts_are_cut_from_the_text(
            rest.skip(n),
            (names - 1) as nat,
            main,
            verbatim,
        );
        assert(rest.skip(n).subrange(a, b) =~= text.subrange(from + n + a, from + n + b));
        (from + n + a, from + n + b)
    }
}

/// A name is no longer than its text.
proof fn lemma_name_fits(text: Seq<char>, main: Separator, verbatim: bool)
    ensures
        name_len(text, main, verbatim) <= text.len(),
    decreases text.len(),
{
    if text.len() > 0 {
        lemma_name_fits(text.skip(1), main, verbatim);
    }
}

/// What is left behind the opening of a text is the text from some place on.
proof fn lemma_front_is_cut(text: Seq<char>, main: Separator, verbatim: bool) -> (from: int)
    ensures
        0 <= from <= text.len(),
        trimmed_front(text, main, verbatim) == text.skip(from),
        from < text.len() ==> !is_separator(text[from], main, verbatim),
    decreases text.len(),
{
    if text.len() == 0 || trimmed_front(text, main, verbatim) == text && !is_separator(
        text[0],
        main,
        verbatim,
    ) {
        assert(text.skip(0) =~= text);
        0
    } else {
        let from = lemma_front_is_cut(text.skip(1), main, verbatim);
        assert(text.skip(1).skip(from) =~= text.skip(from + 1));
        from + 1
    }
}

/// What is left before the closing of a text is the text up to some place.
proof fn lemma_back_is_cut(text: Seq<char>, main: Separator, verbatim: bool) -> (end: int)
    ensures
        0 <= end <= text.len(),
        trimmed_back(text, main, verbatim) == text.take(end),
        end > 0 ==> !is_separator(text[end - 1], main, verbatim),
    decreases text.len(),
{
    if text.len() == 0 || trimmed_back(text, main, verbatim) == text && !is_separator(
        text[text.len() - 1],
        main,
        verbatim,
    ) {
        assert(text.take(text.len() as int) =~= text);
        text.len() as int
    } else {
        let end = lemma_back_is_cut(text.drop_last(), main, verbatim);
        assert(text.drop_last().take(end) =~= text.take(end));
        end
    }
}

/// What stands between names: the separator that the host writes and, unless a path is verbatim, a
/// slash. A component is valid text exactly if it holds no name that is not.
pub proof fn law_separators_and_names(c: char, verbatim: bool, name: PathNameView)
    ensures
        is_separator(c, Separator::Slash, verbatim) <==> c == '/',
        is_separator(c, Separator::Backslash, verbatim) <==> c == '\\' || c == '/' && !verbatim,
        Separator::Slash.symbol() == '/',
        Separator::Backslash.symbol() == '\\',
        is_text(ComponentView::Normal(name)) <==> name is Text,
        is_text(ComponentView::Prefix(name)) <==> name is Text,
        is_text(ComponentView::RootDir) && is_text(ComponentView::CurDir) && is_text(
            ComponentView::ParentDir,
        ),
{
}

/// Whatever is answered about links, a path resolves only to an answer for one of its ancestors, or
/// for itself, with the names below that ancestor kept; each longer one was answered to be missing.
pub proof fn law_resolutions_rest_on_answers<F: Fn(&HostPath) -> Option<HostPath>>(
    canonicalize: F,
    path: PathView,
    found: PathView,
) -> (at: (int, PathView))
    requires
        may_resolve(canonicalize, path, Some(found)),
    ensures
        0 <= at.0 <= path.components.len(),
        may_answer(canonicalize, ancestor(path, at.0), Some(at.1)),
        found.absolute == at.1.absolute,
        found.components == at.1.components + path.components.skip(at.0),
        forall|k: int|
            at.0 < k <= path.components.len() ==> may_answer(
                canonicalize,
                #[trigger] ancestor(path, k),
                None,
            ) && path.components[k - 1] is Normal,
{
    let (len, base) = choose|len: int, base: PathView|
        #![trigger extended(base, path, len)]
        0 <= len <= path.components.len() && missing_above(canonicalize, path, len) && may_answer(
            canonicalize,
            ancestor(path, len),
            Some(base),
        ) && found == extended(base, path, len);
    if len == path.components.len() {
        assert(base.components + path.components.skip(len) =~= base.components);
    }
    (len, base)
}

/// A path is answered for only if the question was put about that very path, and the answer is what
/// came back.
pub proof fn law_answers_are_those_given<F: Fn(&HostPath) -> Option<HostPath>>(
    canonicalize: F,
    path: PathView,
    answer: Option<PathView>,
)
    ensures
        may_answer(canonicalize, path, answer) <==> exists|
            asked: &HostPath,
            given: Option<HostPath>,
        |
            asked@ == path && path_option(given) == answer && #[trigger] call_ensures(
                canonicalize,
                (asked,),
                given,
            ),
{
}

/// How components are written: names and prefixes as they are, the root as a slash, the current
/// directory as one dot and the parent as two.
pub proof fn law_components_are_written_as_they_are(text: Seq<char>)
    ensures
        component_text(ComponentView::Normal(PathNameView::Text(text))) == text,
        component_text(ComponentView::Prefix(PathNameView::Text(text))) == text,
        component_text(ComponentView::RootDir) == seq!['/'],
        component_text(ComponentView::CurDir) == seq!['.'],
        component_text(ComponentView::ParentDir) == seq!['.', '.'],
{
}

/// The prefix of a path is its first component, if that is one. It is verbatim exactly if it opens
/// with two backslashes, a question mark and a backslash.
pub proof fn law_prefixes_open_their_paths(path: PathView, text: Seq<char>)
    ensures
        path.components.len() > 0 && path.components[0] == ComponentView::Prefix(
            PathNameView::Text(text),
        ) ==> path.prefix_text() == text && (path.verbatim() <==> text.len() >= 4 && text[0] == '\\'
            && text[1] == '\\' && text[2] == '?' && text[3] == '\\'),
        path.components.len() == 0 || !(path.components[0] is Prefix) ==> path.prefix_text().len()
            == 0 && !path.verbatim(),
{
    if path.components.len() > 0 && path.components[0] == ComponentView::Prefix(
        PathNameView::Text(text),
    ) && text.len() >= 4 {
        let codes = text.map_values(|c: char| c as int);
        assert(codes[0] == text[0] as int && codes[1] == text[1] as int && codes[2]
            == text[2] as int && codes[3] == text[3] as int);
    }
}

/// The part of a path that was given as a whole is what is left of it behind its prefix and as many
/// names as there are before that component; one that was put together is written out.
pub proof fn law_parts_begin_behind_their_names(path: PathView, start: int, main: Separator)
    requires
        0 <= start <= path.components.len(),
    ensures
        path.spelling matches Some(text) ==> (path.prefix_text().len() <= text.len()
            ==> path.part_from(start, main) == after_names(
            text.skip(path.prefix_text().len() as int),
            path.components.take(start).filter(|c: ComponentView| c is Normal).len(),
            main,
            path.verbatim(),
        )),
        path.spelling is None ==> path.part_from(start, main) == joined(path.components.skip(start)),
{
    lemma_names_are_counted(path.components.take(start));
}

/// The count of names is how many components are names.
proof fn lemma_names_are_counted(components: Seq<ComponentView>)
    ensures
        count_names(components) == components.filter(|c: ComponentView| c is Normal).len(),
    decreases components.len(),
{
    reveal(Seq::filter);
    if components.len() > 0 {
        lemma_names_are_counted(components.drop_last());
    }
}

} // verus!
