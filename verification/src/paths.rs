//! Paths of the machine.
//!
//! What it means to join two paths, or to give a path another extension, depends on the machine: on
//! its separators, and on Windows on drives, servers and other prefixes. A `Place` therefore holds
//! a path as the steps that lead to it, and the machine takes them.

use crate::text;
use vstd::prelude::*;
use vstd::string::*;

verus! {

/// The systems that differ in their paths, or in where they keep fonts.
#[derive(Debug, Clone, Copy, PartialEq, Eq, Structural)]
pub enum Platform {
    MacOs,
    Linux,
    Windows,
    Other,
}

/// A path as the machine gives it: text, or the bytes of a path that is no text.
#[derive(Debug, PartialEq, Eq)]
pub enum MachinePath {
    Text(String),
    /// The bytes as the machine encodes them.
    Raw(Vec<u8>),
}

/// What a `MachinePath` holds.
#[verifier::ext_equal]
pub enum PathView {
    Text(Seq<char>),
    Raw(Seq<u8>),
}

impl View for MachinePath {
    type V = PathView;

    open spec fn view(&self) -> PathView {
        match *self {
            MachinePath::Text(s) => PathView::Text(s@),
            MachinePath::Raw(b) => PathView::Raw(b@),
        }
    }
}

fn clone_bytes(bytes: &Vec<u8>) -> (r: Vec<u8>)
    ensures
        r@ == bytes@,
{
    let n: usize = bytes.len();
    let mut out: Vec<u8> = Vec::new();
    let mut i: usize = 0;
    while i < n
        invariant
            n == bytes@.len(),
            i <= n,
            out@ == bytes@.take(i as int),
        decreases n - i,
    {
        out.push(bytes[i]);
        i += 1;
    }
    assert(bytes@.take(n as int) =~= bytes@);
    out
}

impl Clone for MachinePath {
    fn clone(&self) -> (r: Self)
        ensures
            r@ == self@,
    {
        match self {
            MachinePath::Text(s) => MachinePath::Text(s.clone()),
            MachinePath::Raw(b) => MachinePath::Raw(clone_bytes(b)),
        }
    }
}

/// A step from a path to another one.
#[derive(Debug, PartialEq, Eq)]
pub enum PathStep {
    /// The path that this one leads to from there.
    Join(String),
    /// The path with this extension in place of its own.
    WithExtension(String),
}

/// What a `PathStep` holds.
#[verifier::ext_equal]
pub enum StepView {
    Join(Seq<char>),
    WithExtension(Seq<char>),
}

impl View for PathStep {
    type V = StepView;

    open spec fn view(&self) -> StepView {
        match *self {
            PathStep::Join(part) => StepView::Join(part@),
            PathStep::WithExtension(ext) => StepView::WithExtension(ext@),
        }
    }
}

impl Clone for PathStep {
    fn clone(&self) -> (r: Self)
        ensures
            r@ == self@,
    {
        match self {
            PathStep::Join(part) => PathStep::Join(part.clone()),
            PathStep::WithExtension(ext) => PathStep::WithExtension(ext.clone()),
        }
    }
}

/// A path: one that the machine gave, and the steps that lead on from it.
#[derive(Debug, PartialEq, Eq)]
pub struct Place {
    pub base: MachinePath,
    pub steps: Vec<PathStep>,
}

/// What a `Place` holds.
#[verifier::ext_equal]
pub struct PlaceView {
    pub base: PathView,
    pub steps: Seq<StepView>,
}

/// What a list of steps holds.
pub open spec fn step_views(steps: Seq<PathStep>) -> Seq<StepView> {
    steps.map_values(|s: PathStep| s@)
}

impl View for Place {
    type V = PlaceView;

    open spec fn view(&self) -> PlaceView {
        PlaceView { base: self.base@, steps: step_views(self.steps@) }
    }
}

impl PlaceView {
    /// A path as the machine gave it.
    pub open spec fn at(base: PathView) -> PlaceView {
        PlaceView { base, steps: Seq::empty() }
    }

    /// A path that is written in the program or given by the user.
    pub open spec fn of_text(path: Seq<char>) -> PlaceView {
        PlaceView::at(PathView::Text(path))
    }

    /// The path that `part` leads to from this one.
    pub open spec fn join(self, part: Seq<char>) -> PlaceView {
        PlaceView { steps: self.steps.push(StepView::Join(part)), ..self }
    }

    /// This path with another extension.
    pub open spec fn with_extension(self, ext: Seq<char>) -> PlaceView {
        PlaceView { steps: self.steps.push(StepView::WithExtension(ext)), ..self }
    }

    /// The text of the path, where it is one that the machine gave and text.
    pub open spec fn plain(self) -> Option<Seq<char>> {
        match self.base {
            PathView::Text(s) => if self.steps.len() == 0 {
                Some(s)
            } else {
                None
            },
            PathView::Raw(_) => None,
        }
    }
}

/// What an optional path of the machine holds.
pub open spec fn opt_path(p: Option<MachinePath>) -> Option<PathView> {
    match p {
        Some(path) => Some(path@),
        None => None,
    }
}

/// What an optional path holds.
pub open spec fn opt_place(p: Option<Place>) -> Option<PlaceView> {
    match p {
        Some(place) => Some(place@),
        None => None,
    }
}

/// What a list of paths holds.
pub open spec fn places(list: Seq<Place>) -> Seq<PlaceView> {
    list.map_values(|p: Place| p@)
}

impl Clone for Place {
    fn clone(&self) -> (r: Self)
        ensures
            r@ == self@,
    {
        let n: usize = self.steps.len();
        let mut steps: Vec<PathStep> = Vec::new();
        let mut i: usize = 0;
        while i < n
            invariant
                n == self.steps@.len(),
                i <= n,
                steps@.len() == i,
                forall|j: int| 0 <= j < i ==> (#[trigger] steps@[j])@ == self.steps@[j]@,
            decreases n - i,
        {
            steps.push(self.steps[i].clone());
            i += 1;
        }
        assert(step_views(steps@) =~= step_views(self.steps@));
        Place { base: self.base.clone(), steps }
    }
}

impl Place {
    /// A path as the machine gave it.
    pub fn at(base: MachinePath) -> (r: Place)
        ensures
            r@ == PlaceView::at(base@),
    {
        let steps: Vec<PathStep> = Vec::new();
        assert(step_views(steps@) =~= Seq::<StepView>::empty());
        Place { base, steps }
    }

    /// A path that is written in the program or given by the user.
    pub fn of_text(path: String) -> (r: Place)
        ensures
            r@ == PlaceView::of_text(path@),
    {
        Place::at(MachinePath::Text(path))
    }

    fn extended(&self, step: PathStep) -> (r: Place)
        ensures
            r@ == (PlaceView { steps: self@.steps.push(step@), ..self@ }),
    {
        let mut r = self.clone();
        r.steps.push(step);
        assert(r@.steps =~= self@.steps.push(step@));
        r
    }

    /// The path that `part` leads to from this one.
    pub fn join(&self, part: &str) -> (r: Place)
        ensures
            r@ == self@.join(part@),
    {
        self.extended(PathStep::Join(part.to_owned()))
    }

    /// This path with another extension.
    pub fn with_extension(&self, ext: &str) -> (r: Place)
        ensures
            r@ == self@.with_extension(ext@),
    {
        self.extended(PathStep::WithExtension(ext.to_owned()))
    }

    /// The text of the path, where it is one that the machine gave and text.
    pub fn plain(&self) -> (r: Option<&str>)
        ensures
            match (r, self@.plain()) {
                (Some(s), Some(t)) => s@ == t,
                (None, None) => true,
                _ => false,
            },
    {
        match &self.base {
            MachinePath::Text(s) => if self.steps.len() == 0 {
                Some(s.as_str())
            } else {
                None
            },
            MachinePath::Raw(_) => None,
        }
    }
}

/// The characters that separate the components of a path.
#[derive(Debug, Clone, Copy, PartialEq, Eq, Structural)]
pub enum Separators {
    /// Slashes.
    Slash,
    /// Slashes and backslashes.
    Both,
    /// Backslashes alone; then a component `.` is not skipped. So it is behind the prefix `\\?\`.
    Verbatim,
}

impl Separators {
    /// Whether a character separates components.
    pub open spec fn hold(self, c: char) -> bool {
        match self {
            Separators::Slash => c == '/',
            Separators::Both => c == '/' || c == '\\',
            Separators::Verbatim => c == '\\',
        }
    }

    fn test(self, c: char) -> (r: bool)
        ensures
            r == self.hold(c),
    {
        match self {
            Separators::Slash => c == '/',
            Separators::Both => c == '/' || c == '\\',
            Separators::Verbatim => c == '\\',
        }
    }
}

/// The length of the first component of a path, up to its first separator.
pub open spec fn head_len(s: Seq<char>, sep: Separators) -> nat
    decreases s.len(),
{
    if s.len() == 0 || sep.hold(s[0]) {
        0
    } else {
        1 + head_len(s.skip(1), sep)
    }
}

/// What follows the first separator of a path.
pub open spec fn behind_head(s: Seq<char>, sep: Separators) -> Seq<char> {
    if head_len(s, sep) < s.len() {
        s.skip(head_len(s, sep) as int + 1)
    } else {
        Seq::empty()
    }
}

/// Whether a path begins with a text of backslashes and other characters, its slashes taken for
/// backslashes.
pub open spec fn opens(s: Seq<char>, start: Seq<char>) -> bool {
    start.len() <= s.len() && forall|i: int|
        0 <= i < start.len() ==> #[trigger] start[i] == s[i] || start[i] == '\\' && s[i] == '/'
}

/// Whether a path begins with a drive letter and a colon.
pub open spec fn has_drive(s: Seq<char>) -> bool {
    s.len() >= 2 && ('a' <= s[0] <= 'z' || 'A' <= s[0] <= 'Z') && s[1] == ':'
}

/// The length of the prefix of a Windows path, and the separators behind it. Prefixes are drives
/// (`C:`), shares (`\\server\share`), devices (`\\.\name`), and what follows `\\?\`: a share, a
/// drive or a name, which are taken as they stand.
pub open spec fn windows_prefix(path: Seq<char>) -> (nat, Separators) {
    if opens(path, "\\\\?\\"@) && !path.take(4).contains('/') {
        let rest = path.skip(4);
        if opens(path, "\\\\?\\UNC\\"@) {
            let server = head_len(path.skip(8), Separators::Verbatim);
            let share = head_len(
                behind_head(path.skip(8), Separators::Verbatim),
                Separators::Verbatim,
            );
            (
                8 + server + if share > 0 {
                    1 + share
                } else {
                    0
                },
                Separators::Verbatim,
            )
        } else if has_drive(rest) && (rest.len() == 2 || Separators::Both.hold(rest[2])) {
            (6, Separators::Verbatim)
        } else {
            (4 + head_len(rest, Separators::Verbatim), Separators::Verbatim)
        }
    } else if opens(path, "\\\\.\\"@) {
        (4 + head_len(path.skip(4), Separators::Both), Separators::Both)
    } else if opens(path, "\\\\"@) {
        let server = head_len(path.skip(2), Separators::Both);
        let share = head_len(behind_head(path.skip(2), Separators::Both), Separators::Both);
        if server > 0 && share > 0 {
            (2 + server + 1 + share, Separators::Both)
        } else {
            (0, Separators::Both)
        }
    } else if has_drive(path) {
        (2, Separators::Both)
    } else {
        (0, Separators::Both)
    }
}

/// The length of the prefix of a path, and the separators behind it. Only Windows has prefixes.
pub open spec fn prefix(path: Seq<char>, platform: Platform) -> (nat, Separators) {
    if platform == Platform::Windows {
        windows_prefix(path)
    } else {
        (0, Separators::Slash)
    }
}

/// What follows the last separator of a path; all of it where there is none.
pub open spec fn last_part(s: Seq<char>, sep: Separators) -> Seq<char>
    decreases s.len(),
{
    if s.len() == 0 || sep.hold(s.last()) {
        Seq::empty()
    } else {
        last_part(s.drop_last(), sep).push(s.last())
    }
}

/// A path up to the end of its last component: separators at the end are dropped, and components
/// `.` where they are skipped.
pub open spec fn without_tail(s: Seq<char>, sep: Separators) -> Seq<char>
    decreases s.len(),
{
    if s.len() == 0 {
        s
    } else if sep.hold(s.last()) || (sep != Separators::Verbatim && last_part(s, sep) == seq!['.']) {
        without_tail(s.drop_last(), sep)
    } else {
        s
    }
}

/// The last component of a path, where that is a name: neither a prefix nor the root, and neither
/// `.` nor `..`.
pub open spec fn file_name(path: Seq<char>, platform: Platform) -> Option<Seq<char>> {
    let (skipped, sep) = prefix(path, platform);
    let name = last_part(without_tail(path.skip(skipped as int), sep), sep);
    if name.len() == 0 || name == seq!['.'] || name == seq!['.', '.'] {
        None
    } else {
        Some(name)
    }
}

/// What follows the last dot of the file name, where something stands in front of that dot.
pub open spec fn extension(path: Seq<char>, platform: Platform) -> Option<Seq<char>> {
    match file_name(path, platform) {
        Some(name) => {
            let ext = text::after_last(name, '.');
            if ext.len() + 1 < name.len() {
                Some(ext)
            } else {
                None
            }
        },
        None => None,
    }
}

proof fn head_is_first(s: Seq<char>, sep: Separators, n: int)
    requires
        0 <= n <= s.len(),
        forall|j: int| 0 <= j < n ==> !sep.hold(#[trigger] s[j]),
        n < s.len() ==> sep.hold(s[n]),
    ensures
        head_len(s, sep) == n,
    decreases n,
{
    if n > 0 {
        let rest = s.skip(1);
        assert forall|j: int| 0 <= j < n - 1 implies !sep.hold(#[trigger] rest[j]) by {
            assert(rest[j] == s[j + 1]);
        }
        head_is_first(rest, sep, n - 1);
    }
}

/// The length of the component that begins at a position.
fn head_at(v: &Vec<char>, from: usize, sep: Separators) -> (r: usize)
    requires
        from <= v@.len(),
    ensures
        r == head_len(v@.skip(from as int), sep),
        from + r <= v@.len(),
{
    let n: usize = v.len();
    let mut i: usize = from;
    while i < n && !sep.test(v[i])
        invariant
            n == v@.len(),
            from <= i <= n,
            forall|j: int| from <= j < i ==> !sep.hold(#[trigger] v@[j]),
        decreases n - i,
    {
        i += 1;
    }
    proof {
        let s = v@.skip(from as int);
        assert forall|j: int| 0 <= j < i - from implies !sep.hold(#[trigger] s[j]) by {
            assert(s[j] == v@[from + j]);
        }
        head_is_first(s, sep, i - from);
    }
    i - from
}

/// The lengths of the component that begins at a position, and of the next one.
fn two_heads(v: &Vec<char>, from: usize, sep: Separators) -> (r: (usize, usize))
    requires
        from <= v@.len(),
    ensures
        r.0 == head_len(v@.skip(from as int), sep),
        r.1 == head_len(behind_head(v@.skip(from as int), sep), sep),
        from + r.0 <= v@.len(),
        r.1 > 0 ==> from + r.0 + 1 + r.1 <= v@.len(),
{
    let n: usize = v.len();
    let first: usize = head_at(v, from, sep);
    let next: usize = from + first;
    let second: usize = if next < n {
        assert(v@.skip(from as int).skip(first + 1) =~= v@.skip(next + 1));
        head_at(v, next + 1, sep)
    } else {
        0
    };
    (first, second)
}

/// Whether a path begins with a text, its slashes taken for backslashes.
fn opens_with(v: &Vec<char>, start: &str) -> (r: bool)
    ensures
        r == opens(v@, start@),
{
    let p = text::chars_of(start);
    let n: usize = p.len();
    if n > v.len() {
        return false;
    }
    let mut i: usize = 0;
    while i < n
        invariant
            p@ == start@,
            n == p@.len(),
            n <= v@.len(),
            i <= n,
            forall|j: int|
                0 <= j < i ==> #[trigger] start@[j] == v@[j] || start@[j] == '\\' && v@[j] == '/',
        decreases n - i,
    {
        if !(p[i] == v[i] || (p[i] == '\\' && v[i] == '/')) {
            assert(start@[i as int] == p@[i as int]);
            return false;
        }
        i += 1;
    }
    true
}

fn is_letter(c: char) -> (r: bool)
    ensures
        r == ('a' <= c <= 'z' || 'A' <= c <= 'Z'),
{
    let u: u32 = c as u32;
    (0x61 <= u && u <= 0x7a) || (0x41 <= u && u <= 0x5a)
}

fn drive_at(v: &Vec<char>, from: usize) -> (r: bool)
    requires
        from <= v@.len(),
    ensures
        r == has_drive(v@.skip(from as int)),
{
    v.len() - from >= 2 && is_letter(v[from]) && v[from + 1] == ':'
}

fn windows_prefix_of(v: &Vec<char>) -> (r: (usize, Separators))
    ensures
        r.0 == windows_prefix(v@).0,
        r.1 == windows_prefix(v@).1,
        r.0 <= v@.len(),
{
    let n: usize = v.len();
    proof {
        reveal_strlit("\\\\?\\");
        reveal_strlit("\\\\?\\UNC\\");
        reveal_strlit("\\\\.\\");
        reveal_strlit("\\\\");
        assert(v@.skip(0) =~= v@);
    }
    if opens_with(v, "\\\\?\\") {
        let ghost four = v@.take(4);
        let slash = v[0] == '/' || v[1] == '/' || v[2] == '/' || v[3] == '/';
        assert(slash == four.contains('/')) by {
            assert(four[0] == v@[0] && four[1] == v@[1] && four[2] == v@[2] && four[3] == v@[3]);
        }
        if !slash {
            if opens_with(v, "\\\\?\\UNC\\") {
                let (server, share): (usize, usize) = two_heads(v, 8, Separators::Verbatim);
                if share > 0 {
                    return (8 + server + 1 + share, Separators::Verbatim);
                }
                return (8 + server, Separators::Verbatim);
            }
            if drive_at(v, 4) && (n == 6 || Separators::Both.test(v[6])) {
                return (6, Separators::Verbatim);
            }
            return (4 + head_at(v, 4, Separators::Verbatim), Separators::Verbatim);
        }
    }
    if opens_with(v, "\\\\.\\") {
        (4 + head_at(v, 4, Separators::Both), Separators::Both)
    } else if opens_with(v, "\\\\") {
        let (server, share): (usize, usize) = two_heads(v, 2, Separators::Both);
        if server > 0 && share > 0 {
            (2 + server + 1 + share, Separators::Both)
        } else {
            (0, Separators::Both)
        }
    } else if drive_at(v, 0) {
        (2, Separators::Both)
    } else {
        (0, Separators::Both)
    }
}

proof fn last_part_is_suffix(s: Seq<char>, sep: Separators, from: int)
    requires
        0 <= from <= s.len(),
        from == 0 || sep.hold(s[from - 1]),
        forall|j: int| from <= j < s.len() ==> !sep.hold(#[trigger] s[j]),
    ensures
        last_part(s, sep) == s.skip(from),
    decreases s.len(),
{
    if from < s.len() {
        let front = s.drop_last();
        assert(!sep.hold(s[s.len() - 1]));
        assert forall|j: int| from <= j < front.len() implies !sep.hold(#[trigger] front[j]) by {
            assert(front[j] == s[j]);
        }
        last_part_is_suffix(front, sep, from);
        assert(front.skip(from).push(s.last()) =~= s.skip(from));
    } else {
        assert(s.skip(from) =~= Seq::<char>::empty());
    }
}

/// Where the last component begins among the characters from `lo` up to `end`.
fn last_start(v: &Vec<char>, lo: usize, end: usize, sep: Separators) -> (r: usize)
    requires
        lo <= end <= v@.len(),
    ensures
        lo <= r <= end,
        last_part(v@.subrange(lo as int, end as int), sep) == v@.subrange(r as int, end as int),
{
    let mut from: usize = end;
    while from > lo && !sep.test(v[from - 1])
        invariant
            lo <= from <= end <= v@.len(),
            forall|j: int| from <= j < end ==> !sep.hold(#[trigger] v@[j]),
        decreases from,
    {
        from -= 1;
    }
    proof {
        let s = v@.subrange(lo as int, end as int);
        assert forall|j: int| from - lo <= j < s.len() implies !sep.hold(#[trigger] s[j]) by {
            assert(s[j] == v@[lo + j]);
        }
        last_part_is_suffix(s, sep, from - lo);
        assert(s.skip(from - lo) =~= v@.subrange(from as int, end as int));
    }
    from
}

/// Where a path that begins at `lo` ends without its tail.
fn body_end(v: &Vec<char>, lo: usize, sep: Separators) -> (end: usize)
    requires
        lo <= v@.len(),
    ensures
        lo <= end <= v@.len(),
        without_tail(v@.skip(lo as int), sep) == v@.subrange(lo as int, end as int),
{
    let mut end: usize = v.len();
    assert(v@.skip(lo as int) =~= v@.subrange(lo as int, end as int));
    while end > lo
        invariant_except_break
            lo <= end <= v@.len(),
            without_tail(v@.skip(lo as int), sep) == without_tail(
                v@.subrange(lo as int, end as int),
                sep,
            ),
        ensures
            lo <= end <= v@.len(),
            without_tail(v@.skip(lo as int), sep) == v@.subrange(lo as int, end as int),
        decreases end,
    {
        let ghost cur = v@.subrange(lo as int, end as int);
        let start: usize = last_start(v, lo, end, sep);
        let dot = end - start == 1 && v[start] == '.' && sep != Separators::Verbatim;
        proof {
            let name = v@.subrange(start as int, end as int);
            if end - start == 1 && v@[start as int] == '.' {
                assert(name =~= seq!['.']);
            } else if name == seq!['.'] {
                assert(name.len() == 1 && name[0] == '.');
            }
        }
        if sep.test(v[end - 1]) || dot {
            end -= 1;
            assert(cur.drop_last() =~= v@.subrange(lo as int, end as int));
        } else {
            break;
        }
    }
    end
}

/// Where the file name of a path begins and ends, where it has one.
fn name_bounds(v: &Vec<char>, platform: Platform) -> (r: Option<(usize, usize)>)
    ensures
        match (r, file_name(v@, platform)) {
            (Some((start, end)), Some(name)) => start < end <= v@.len() && name == v@.subrange(
                start as int,
                end as int,
            ),
            (None, None) => true,
            _ => false,
        },
{
    let (lo, sep): (usize, Separators) = if platform == Platform::Windows {
        windows_prefix_of(v)
    } else {
        (0, Separators::Slash)
    };
    let end: usize = body_end(v, lo, sep);
    let start: usize = last_start(v, lo, end, sep);
    let ghost name = v@.subrange(start as int, end as int);
    if start == end || (end - start == 1 && v[start] == '.') || (end - start == 2 && v[start] == '.'
        && v[start + 1] == '.') {
        assert(name.len() == 0 || name =~= seq!['.'] || name =~= seq!['.', '.']);
        return None;
    }
    assert(name != seq!['.'] && name != seq!['.', '.']) by {
        if name == seq!['.'] {
            assert(name.len() == 1 && name[0] == '.');
        }
        if name == seq!['.', '.'] {
            assert(name.len() == 2 && name[0] == '.' && name[1] == '.');
        }
    }
    Some((start, end))
}

/// What follows the last dot of the file name, where something stands in front of that dot.
pub fn path_extension(path: &str, platform: Platform) -> (r: Option<String>)
    ensures
        match (r, extension(path@, platform)) {
            (Some(s), Some(ext)) => s@ == ext,
            (None, None) => true,
            _ => false,
        },
{
    let v = text::chars_of(path);
    let (start, end): (usize, usize) = match name_bounds(&v, platform) {
        Some(bounds) => bounds,
        None => {
            return None;
        },
    };
    let mut from: usize = end;
    while from > start && v[from - 1] != '.'
        invariant
            start <= from <= end <= v@.len(),
            forall|j: int| from <= j < end ==> v@[j] != '.',
        decreases from,
    {
        from -= 1;
    }
    proof {
        let name = v@.subrange(start as int, end as int);
        text::after_last_is_suffix(name, '.', from - start);
        assert(name.skip(from - start) =~= v@.subrange(from as int, end as int));
    }
    if from > start + 1 {
        Some(path.substring_char(from, end).to_owned())
    } else {
        None
    }
}

/// A file name that is a stem, a dot and letters has these letters as its extension, wherever the
/// file is; without a dot it has none. So it is where slashes alone separate.
pub proof fn extension_follows_the_last_dot(
    dir: Seq<char>,
    stem: Seq<char>,
    ext: Seq<char>,
    platform: Platform,
)
    requires
        platform != Platform::Windows,
        stem.len() > 0,
        !stem.contains('/'),
        ext.len() > 0,
        !ext.contains('/'),
        !ext.contains('.'),
    ensures
        extension(dir.push('/') + stem.push('.') + ext, platform) == Some(ext),
        extension(stem.push('.') + ext, platform) == Some(ext),
        !stem.contains('.') ==> extension(dir.push('/') + stem, platform) is None,
        extension(dir.push('/') + seq!['.'] + ext, platform) is None,
{
    let name = stem.push('.') + ext;
    assert forall|k: int| 0 <= k < name.len() implies name[k] != '/' by {
        if k < stem.len() {
            assert(stem.contains(name[k]));
        } else if k > stem.len() {
            assert(ext.contains(name[k]));
        }
    }
    assert forall|k: int| 0 <= k < ext.len() implies ext[k] != '.' by {
        assert(ext.contains(ext[k]));
    }
    dot_splits(name, stem.len() as int);
    assert(name.skip(stem.len() as int + 1) =~= ext);
    assert(name.len() >= 3);
    assert(dir.push('/') + stem.push('.') + ext =~= dir.push('/') + name);
    plain_name_is_last(dir.push('/'), name, platform);
    plain_name_is_last(Seq::empty(), name, platform);
    assert(Seq::<char>::empty() + name =~= name);
    let hidden = seq!['.'] + ext;
    assert forall|k: int| 0 <= k < hidden.len() implies hidden[k] != '/' by {
        if k > 0 {
            assert(ext.contains(hidden[k]));
        }
    }
    dot_splits(hidden, 0);
    assert(hidden.skip(1) =~= ext);
    assert(hidden[1] != '.');
    assert(dir.push('/') + seq!['.'] + ext =~= dir.push('/') + hidden);
    plain_name_is_last(dir.push('/'), hidden, platform);
    if !stem.contains('.') {
        assert forall|k: int| 0 <= k < stem.len() implies stem[k] != '.' && stem[k] != '/' by {
            assert(stem.contains(stem[k]));
        }
        text::after_last_is_suffix(stem, '.', 0);
        assert(stem.skip(0) =~= stem);
        plain_name_is_last(dir.push('/'), stem, platform);
    }
}

proof fn dot_splits(name: Seq<char>, at: int)
    requires
        0 <= at < name.len(),
        name[at] == '.',
        forall|k: int| at < k < name.len() ==> name[k] != '.',
    ensures
        text::after_last(name, '.') == name.skip(at + 1),
{
    text::after_last_is_suffix(name, '.', at + 1);
}

proof fn plain_name_is_last(front: Seq<char>, name: Seq<char>, platform: Platform)
    requires
        platform != Platform::Windows,
        front.len() == 0 || front.last() == '/',
        name.len() > 0,
        forall|k: int| 0 <= k < name.len() ==> name[k] != '/',
        !(name.len() == 1 && name[0] == '.'),
        !(name.len() == 2 && name[0] == '.' && name[1] == '.'),
    ensures
        file_name(front + name, platform) == Some(name),
{
    let path = front + name;
    let sep = Separators::Slash;
    assert forall|j: int| front.len() <= j < path.len() implies !sep.hold(#[trigger] path[j]) by {
        assert(path[j] == name[j - front.len()]);
    }
    last_part_is_suffix(path, sep, front.len() as int);
    assert(path.skip(front.len() as int) =~= name);
    assert(path.skip(0) =~= path);
    assert(path.last() == name[name.len() - 1]);
    if name == seq!['.'] {
        assert(name.len() == 1 && name[0] == '.');
    }
    if name == seq!['.', '.'] {
        assert(name.len() == 2 && name[0] == '.' && name[1] == '.');
    }
    assert(without_tail(path, sep) == path);
}

/// A step leads on from a path: what came before stays, and the step is the last one.
pub proof fn steps_lead_on(place: PlaceView, s: Seq<char>)
    ensures
        place.join(s).base == place.base,
        place.join(s).steps.len() == place.steps.len() + 1,
        forall|k: int| 0 <= k < place.steps.len() ==> #[trigger] place.join(s).steps[k] == place.steps[k],
        place.join(s).steps.last() == StepView::Join(s),
        place.with_extension(s).base == place.base,
        place.with_extension(s).steps.len() == place.steps.len() + 1,
        forall|k: int|
            0 <= k < place.steps.len() ==> #[trigger] place.with_extension(s).steps[k]
                == place.steps[k],
        place.with_extension(s).steps.last() == StepView::WithExtension(s),
        PlaceView::of_text(s).base == PathView::Text(s),
        PlaceView::of_text(s).steps.len() == 0,
        PlaceView::of_text(s).plain() == Some(s),
        place.join(s).plain() is None,
{
}

/// A slash at the end of a path, and a dot behind a slash at its end, do not matter for its file
/// name; and there is none where the path ends in two dots, or in a slash alone. So it is where
/// slashes alone separate.
pub proof fn file_name_disregards_the_end(path: Seq<char>, platform: Platform)
    requires
        platform != Platform::Windows,
    ensures
        file_name(path.push('/'), platform) == file_name(path, platform),
        file_name(path.push('/').push('.'), platform) == file_name(path, platform),
        file_name(path.push('/').push('.').push('.'), platform) is None,
        file_name(seq!['/'], platform) is None,
        file_name(Seq::empty(), platform) is None,
{
    let sep = Separators::Slash;
    let slash = path.push('/');
    let dot = slash.push('.');
    let dots = dot.push('.');
    assert(slash.drop_last() =~= path);
    assert(dot.drop_last() =~= slash);
    assert(dots.drop_last() =~= dot);
    assert(path.skip(0) =~= path);
    assert(slash.skip(0) =~= slash);
    assert(dot.skip(0) =~= dot);
    assert(dots.skip(0) =~= dots);
    assert(last_part(slash, sep) =~= Seq::<char>::empty());
    assert(last_part(dot, sep) =~= seq!['.']);
    assert(last_part(dots, sep) =~= seq!['.', '.']);
    assert(without_tail(slash, sep) == without_tail(path, sep));
    assert(without_tail(dot, sep) == without_tail(slash, sep));
    assert(seq!['.', '.'] != seq!['.']) by {
        assert(seq!['.', '.'].len() != seq!['.'].len());
    }
    assert(without_tail(dots, sep) == dots);
    let root = seq!['/'];
    let none = Seq::<char>::empty();
    assert(root.skip(0) =~= root);
    assert(none.skip(0) =~= none);
    assert(root.drop_last() =~= none);
    assert(without_tail(none, sep) == none);
    assert(without_tail(root, sep) == none);
    assert(last_part(none, sep) =~= none);
}

/// On Windows the file name of a path with a drive, or of one that begins with a name, is what
/// follows its last separator, which can be a slash or a backslash.
pub proof fn windows_name_follows_the_separator(drive: char, dir: Seq<char>, name: Seq<char>)
    requires
        'a' <= drive <= 'z' || 'A' <= drive <= 'Z',
        dir.len() == 0 || dir.last() == '/' || dir.last() == '\\',
        name.len() > 0,
        !name.contains('/'),
        !name.contains('\\'),
        name != seq!['.'],
        name != seq!['.', '.'],
    ensures
        file_name(seq![drive, ':'] + dir + name, Platform::Windows) == Some(name),
        dir.len() > 0 && dir[0] != '/' && dir[0] != '\\' && !has_drive(dir) ==> file_name(
            dir + name,
            Platform::Windows,
        ) == Some(name),
{
    reveal_strlit("\\\\?\\");
    reveal_strlit("\\\\.\\");
    reveal_strlit("\\\\");
    let full = seq![drive, ':'] + dir + name;
    let rest = dir + name;
    let sep = Separators::Both;
    assert(full.skip(2) =~= rest);
    assert("\\\\"@[0] == '\\');
    assert("\\\\?\\"@[0] == '\\');
    assert("\\\\.\\"@[0] == '\\');
    assert(full[0] == drive);
    assert(windows_prefix(full) == (2nat, sep));
    assert forall|j: int| dir.len() <= j < rest.len() implies !sep.hold(#[trigger] rest[j]) by {
        assert(rest[j] == name[j - dir.len()]);
        assert(name.contains(name[j - dir.len()]));
    }
    last_part_is_suffix(rest, sep, dir.len() as int);
    assert(rest.skip(dir.len() as int) =~= name);
    assert(!sep.hold(rest[rest.len() - 1]));
    assert(without_tail(rest, sep) == rest);
    if dir.len() > 0 && dir[0] != '/' && dir[0] != '\\' && !has_drive(dir) {
        assert(rest[0] == dir[0]);
        assert(!has_drive(rest)) by {
            if has_drive(rest) {
                if dir.len() >= 2 {
                    assert(rest[1] == dir[1]);
                } else {
                    assert(sep.hold(dir.last()));
                }
            }
        }
        assert(windows_prefix(rest) == (0nat, sep));
        assert(rest.skip(0) =~= rest);
    }
}

/// Slashes separate everywhere, backslashes on Windows alone, and behind a verbatim prefix only
/// backslashes do.
pub proof fn separators_are_slashes(c: char)
    ensures
        Separators::Slash.hold(c) <==> c == '/',
        Separators::Both.hold(c) <==> c == '/' || c == '\\',
        Separators::Verbatim.hold(c) <==> c == '\\',
{
}

/// On every system the extension is what follows the last dot of the file name, and there is none
/// without a file name, without a dot in it, or with the only dot at its beginning.
pub proof fn extension_is_the_end_of_the_name(
    path: Seq<char>,
    platform: Platform,
    stem: Seq<char>,
    ext: Seq<char>,
)
    requires
        !ext.contains('.'),
    ensures
        file_name(path, platform) is None ==> extension(path, platform) is None,
        stem.len() > 0 && file_name(path, platform) == Some(stem.push('.') + ext) ==> extension(
            path,
            platform,
        ) == Some(ext),
        file_name(path, platform) == Some(ext) ==> extension(path, platform) is None,
        file_name(path, platform) == Some(seq!['.'] + ext) ==> extension(path, platform) is None,
{
    assert forall|k: int| 0 <= k < ext.len() implies ext[k] != '.' by {
        assert(ext.contains(ext[k]));
    }
    let name = stem.push('.') + ext;
    dot_splits(name, stem.len() as int);
    assert(name.skip(stem.len() as int + 1) =~= ext);
    text::after_last_is_suffix(ext, '.', 0);
    assert(ext.skip(0) =~= ext);
    let hidden = seq!['.'] + ext;
    dot_splits(hidden, 0);
    assert(hidden.skip(1) =~= ext);
}

proof fn name_behind_prefix(path: Seq<char>, skipped: int, dir: Seq<char>, name: Seq<char>)
    requires
        0 <= skipped <= path.len(),
        path.skip(skipped) == dir + name,
        windows_prefix(path).0 == skipped,
        dir.len() == 0 || windows_prefix(path).1.hold(dir.last()),
        name.len() > 0,
        forall|k: int| 0 <= k < name.len() ==> !windows_prefix(path).1.hold(#[trigger] name[k]),
        name != seq!['.'],
        name != seq!['.', '.'],
    ensures
        file_name(path, Platform::Windows) == Some(name),
{
    let rest = dir + name;
    let sep = windows_prefix(path).1;
    assert forall|j: int| dir.len() <= j < rest.len() implies !sep.hold(#[trigger] rest[j]) by {
        assert(rest[j] == name[j - dir.len()]);
    }
    last_part_is_suffix(rest, sep, dir.len() as int);
    assert(rest.skip(dir.len() as int) =~= name);
    assert(!sep.hold(rest[rest.len() - 1]));
    assert(without_tail(rest, sep) == rest);
}

proof fn prefix_alone_has_no_name(path: Seq<char>)
    requires
        windows_prefix(path).0 == path.len(),
    ensures
        file_name(path, Platform::Windows) is None,
{
    let sep = windows_prefix(path).1;
    let none = Seq::<char>::empty();
    assert(path.skip(path.len() as int) =~= none);
    assert(without_tail(none, sep) == none);
    assert(last_part(none, sep) == none);
}

/// On Windows a share is no file, whatever its server and its name are and whether slashes or
/// backslashes are written, and behind it the file name is what follows the last separator.
pub proof fn shares_are_no_files(
    seps: (char, char, char),
    server: Seq<char>,
    share: Seq<char>,
    dir: Seq<char>,
    name: Seq<char>,
)
    requires
        Separators::Both.hold(seps.0) && Separators::Both.hold(seps.1),
        Separators::Both.hold(seps.2),
        server.len() > 0,
        !server.contains('/') && !server.contains('\\'),
        server != seq!['?'] && server != seq!['.'],
        share.len() > 0,
        !share.contains('/') && !share.contains('\\'),
        dir.len() > 0,
        dir[0] == '/' || dir[0] == '\\',
        dir.last() == '/' || dir.last() == '\\',
        name.len() > 0,
        !name.contains('/') && !name.contains('\\'),
        name != seq!['.'] && name != seq!['.', '.'],
    ensures
        file_name(seq![seps.0, seps.1] + server + seq![seps.2] + share, Platform::Windows) is None,
        file_name(
            seq![seps.0, seps.1] + server + seq![seps.2] + share + dir + name,
            Platform::Windows,
        ) == Some(name),
{
    let sep = Separators::Both;
    let root = seq![seps.0, seps.1] + server + seq![seps.2] + share;
    let path = root + dir + name;
    share_prefix(seps, server, share, Seq::empty());
    assert(root + Seq::<char>::empty() =~= root);
    prefix_alone_has_no_name(root);
    share_prefix(seps, server, share, dir + name);
    assert(path =~= root + (dir + name));
    assert(path.skip(root.len() as int) =~= dir + name);
    assert forall|k: int| 0 <= k < name.len() implies !sep.hold(#[trigger] name[k]) by {
        assert(name.contains(name[k]));
    }
    name_behind_prefix(path, root.len() as int, dir, name);
}

proof fn share_prefix(
    seps: (char, char, char),
    server: Seq<char>,
    share: Seq<char>,
    rest: Seq<char>,
)
    requires
        Separators::Both.hold(seps.0) && Separators::Both.hold(seps.1),
        Separators::Both.hold(seps.2),
        server.len() > 0,
        !server.contains('/') && !server.contains('\\'),
        server != seq!['?'] && server != seq!['.'],
        share.len() > 0,
        !share.contains('/') && !share.contains('\\'),
        rest.len() == 0 || rest[0] == '/' || rest[0] == '\\',
    ensures
        windows_prefix(seq![seps.0, seps.1] + server + seq![seps.2] + share + rest) == (
            (3 + server.len() + share.len()) as nat,
            Separators::Both,
        ),
{
    reveal_strlit("\\\\?\\");
    reveal_strlit("\\\\.\\");
    reveal_strlit("\\\\");
    let sep = Separators::Both;
    let path = seq![seps.0, seps.1] + server + seq![seps.2] + share + rest;
    let n = server.len() as int;
    assert forall|k: int| 0 <= k < server.len() implies !sep.hold(#[trigger] server[k]) by {
        assert(server.contains(server[k]));
    }
    assert forall|k: int| 0 <= k < share.len() implies !sep.hold(#[trigger] share[k]) by {
        assert(share.contains(share[k]));
    }
    assert(path[2] == server[0]);
    assert(path[3] == if n > 1 {
        server[1]
    } else {
        seps.2
    });
    assert(!opens(path, "\\\\?\\"@)) by {
        if opens(path, "\\\\?\\"@) {
            let start = "\\\\?\\"@;
            assert(start[2] == '?' && start[3] == '\\');
            assert(start[2] == path[2]);
            assert(sep.hold(path[3]));
            assert(server =~= seq!['?']);
        }
    }
    assert(!opens(path, "\\\\.\\"@)) by {
        if opens(path, "\\\\.\\"@) {
            let start = "\\\\.\\"@;
            assert(start[2] == '.' && start[3] == '\\');
            assert(start[2] == path[2]);
            assert(sep.hold(path[3]));
            assert(server =~= seq!['.']);
        }
    }
    assert(path[0] == seps.0 && path[1] == seps.1);
    assert(opens(path, "\\\\"@));
    let one = path.skip(2);
    assert(one =~= server + seq![seps.2] + share + rest);
    assert forall|j: int| 0 <= j < n implies !sep.hold(#[trigger] one[j]) by {
        assert(one[j] == server[j]);
    }
    head_is_first(one, sep, n);
    let two = behind_head(one, sep);
    assert(two =~= share + rest);
    assert forall|j: int| 0 <= j < share.len() implies !sep.hold(#[trigger] two[j]) by {
        assert(two[j] == share[j]);
    }
    if rest.len() > 0 {
        assert(two[share.len() as int] == rest[0]);
    }
    head_is_first(two, sep, share.len() as int);
}

/// On Windows a drive is no file, nor is one behind `\\?\`; behind the latter only backslashes
/// separate, and the file name is what follows the last one, slashes and all.
pub proof fn drives_are_no_files(drive: char, dir: Seq<char>, name: Seq<char>)
    requires
        'a' <= drive <= 'z' || 'A' <= drive <= 'Z',
        dir.len() > 0,
        dir[0] == '\\',
        dir.last() == '\\',
        name.len() > 0,
        !name.contains('\\'),
        name != seq!['.'] && name != seq!['.', '.'],
    ensures
        file_name(seq![drive, ':'], Platform::Windows) is None,
        file_name(seq!['\\', '\\', '?', '\\', drive, ':'], Platform::Windows) is None,
        file_name(
            seq!['\\', '\\', '?', '\\', drive, ':'] + dir + name,
            Platform::Windows,
        ) == Some(name),
{
    let plain = seq![drive, ':'];
    assert(windows_prefix(plain) == (2nat, Separators::Both)) by {
        reveal_strlit("\\\\?\\");
        reveal_strlit("\\\\.\\");
        reveal_strlit("\\\\");
        assert("\\\\"@[0] == '\\');
        assert("\\\\?\\"@[0] == '\\');
        assert("\\\\.\\"@[0] == '\\');
        assert(plain[0] == drive);
    }
    prefix_alone_has_no_name(plain);
    verbatim_drive_prefix(drive, Seq::empty());
    verbatim_drive_prefix(drive, dir + name);
    name_behind_verbatim(seq!['\\', '\\', '?', '\\', drive, ':'], dir, name);
}

proof fn verbatim_drive_prefix(drive: char, rest: Seq<char>)
    requires
        'a' <= drive <= 'z' || 'A' <= drive <= 'Z',
        rest.len() == 0 || rest[0] == '\\',
    ensures
        windows_prefix(seq!['\\', '\\', '?', '\\', drive, ':'] + rest) == (
            6nat,
            Separators::Verbatim,
        ),
{
    reveal_strlit("\\\\?\\");
    reveal_strlit("\\\\?\\UNC\\");
    let path = seq!['\\', '\\', '?', '\\', drive, ':'] + rest;
    let start = "\\\\?\\"@;
    assert(opens(path, start));
    assert(!path.take(4).contains('/'));
    let unc = "\\\\?\\UNC\\"@;
    assert(!opens(path, unc)) by {
        assert(unc[5] == 'N');
        assert(path[5] == ':');
    }
    let behind = path.skip(4);
    assert(behind[0] == drive && behind[1] == ':');
    if rest.len() > 0 {
        assert(behind[2] == rest[0]);
    }
}

/// On Windows a device is no file, and behind it the file name is what follows the last separator.
pub proof fn devices_are_no_files(device: Seq<char>, dir: Seq<char>, name: Seq<char>)
    requires
        !device.contains('/') && !device.contains('\\'),
        dir.len() > 0,
        dir[0] == '/' || dir[0] == '\\',
        dir.last() == '/' || dir.last() == '\\',
        name.len() > 0,
        !name.contains('/') && !name.contains('\\'),
        name != seq!['.'] && name != seq!['.', '.'],
    ensures
        file_name(seq!['\\', '\\', '.', '\\'] + device, Platform::Windows) is None,
        file_name(
            seq!['\\', '\\', '.', '\\'] + device + dir + name,
            Platform::Windows,
        ) == Some(name),
{
    let sep = Separators::Both;
    let root = seq!['\\', '\\', '.', '\\'] + device;
    let path = root + dir + name;
    device_prefix(device, Seq::empty());
    assert(root + Seq::<char>::empty() =~= root);
    prefix_alone_has_no_name(root);
    device_prefix(device, dir + name);
    assert(path =~= root + (dir + name));
    assert(path.skip(root.len() as int) =~= dir + name);
    assert forall|k: int| 0 <= k < name.len() implies !sep.hold(#[trigger] name[k]) by {
        assert(name.contains(name[k]));
    }
    name_behind_prefix(path, root.len() as int, dir, name);
}

proof fn device_prefix(device: Seq<char>, rest: Seq<char>)
    requires
        !device.contains('/') && !device.contains('\\'),
        rest.len() == 0 || rest[0] == '/' || rest[0] == '\\',
    ensures
        windows_prefix(seq!['\\', '\\', '.', '\\'] + device + rest) == (
            (4 + device.len()) as nat,
            Separators::Both,
        ),
{
    reveal_strlit("\\\\?\\");
    reveal_strlit("\\\\.\\");
    let sep = Separators::Both;
    let path = seq!['\\', '\\', '.', '\\'] + device + rest;
    assert(!opens(path, "\\\\?\\"@)) by {
        assert("\\\\?\\"@[2] == '?');
        assert(path[2] == '.');
    }
    assert(opens(path, "\\\\.\\"@));
    let behind = path.skip(4);
    assert(behind =~= device + rest);
    assert forall|j: int| 0 <= j < device.len() implies !sep.hold(#[trigger] behind[j]) by {
        assert(behind[j] == device[j]);
        assert(device.contains(device[j]));
    }
    if rest.len() > 0 {
        assert(behind[device.len() as int] == rest[0]);
    }
    head_is_first(behind, sep, device.len() as int);
}

/// Behind `\\?\` the name that comes first is no file; the file name is what follows the last
/// backslash.
pub proof fn verbatim_names_are_no_files(first: Seq<char>, dir: Seq<char>, name: Seq<char>)
    requires
        first.len() > 0,
        first[0] != 'U',
        !has_drive(first),
        !first.contains('\\'),
        dir.len() > 0,
        dir[0] == '\\',
        dir.last() == '\\',
        name.len() > 0,
        !name.contains('\\'),
        name != seq!['.'] && name != seq!['.', '.'],
    ensures
        file_name(seq!['\\', '\\', '?', '\\'] + first, Platform::Windows) is None,
        file_name(
            seq!['\\', '\\', '?', '\\'] + first + dir + name,
            Platform::Windows,
        ) == Some(name),
{
    let root = seq!['\\', '\\', '?', '\\'] + first;
    verbatim_name_prefix(first, Seq::empty());
    verbatim_name_prefix(first, dir + name);
    name_behind_verbatim(root, dir, name);
}

/// Behind `\\?\UNC\` a share is no file; the file name is what follows the last backslash.
pub proof fn verbatim_shares_are_no_files(
    server: Seq<char>,
    share: Seq<char>,
    dir: Seq<char>,
    name: Seq<char>,
)
    requires
        !server.contains('\\'),
        share.len() > 0,
        !share.contains('\\'),
        dir.len() > 0,
        dir[0] == '\\',
        dir.last() == '\\',
        name.len() > 0,
        !name.contains('\\'),
        name != seq!['.'] && name != seq!['.', '.'],
    ensures
        file_name(
            seq!['\\', '\\', '?', '\\', 'U', 'N', 'C', '\\'] + server + seq!['\\'] + share,
            Platform::Windows,
        ) is None,
        file_name(
            seq!['\\', '\\', '?', '\\', 'U', 'N', 'C', '\\'] + server + seq!['\\'] + share + dir
                + name,
            Platform::Windows,
        ) == Some(name),
{
    let root = seq!['\\', '\\', '?', '\\', 'U', 'N', 'C', '\\'] + server + seq!['\\'] + share;
    verbatim_share_prefix(server, share, Seq::empty());
    verbatim_share_prefix(server, share, dir + name);
    name_behind_verbatim(root, dir, name);
}

proof fn name_behind_verbatim(root: Seq<char>, dir: Seq<char>, name: Seq<char>)
    requires
        windows_prefix(root + Seq::<char>::empty()) == (root.len(), Separators::Verbatim),
        windows_prefix(root + (dir + name)) == (root.len(), Separators::Verbatim),
        dir.len() > 0,
        dir.last() == '\\',
        name.len() > 0,
        !name.contains('\\'),
        name != seq!['.'] && name != seq!['.', '.'],
    ensures
        file_name(root, Platform::Windows) is None,
        file_name(root + dir + name, Platform::Windows) == Some(name),
{
    assert(root + Seq::<char>::empty() =~= root);
    prefix_alone_has_no_name(root);
    let path = root + dir + name;
    assert(path =~= root + (dir + name));
    assert(path.skip(root.len() as int) =~= dir + name);
    assert forall|k: int| 0 <= k < name.len() implies !Separators::Verbatim.hold(
        #[trigger] name[k],
    ) by {
        assert(name.contains(name[k]));
    }
    name_behind_prefix(path, root.len() as int, dir, name);
}

proof fn verbatim_name_prefix(first: Seq<char>, rest: Seq<char>)
    requires
        first.len() > 0,
        first[0] != 'U',
        !has_drive(first),
        !first.contains('\\'),
        rest.len() == 0 || rest[0] == '\\',
    ensures
        windows_prefix(seq!['\\', '\\', '?', '\\'] + first + rest) == (
            (4 + first.len()) as nat,
            Separators::Verbatim,
        ),
{
    reveal_strlit("\\\\?\\");
    reveal_strlit("\\\\?\\UNC\\");
    let sep = Separators::Verbatim;
    let path = seq!['\\', '\\', '?', '\\'] + first + rest;
    assert(opens(path, "\\\\?\\"@));
    assert(!path.take(4).contains('/'));
    let unc = "\\\\?\\UNC\\"@;
    assert(!opens(path, unc)) by {
        assert(unc[4] == 'U');
        assert(path[4] == first[0]);
    }
    let behind = path.skip(4);
    assert(behind =~= first + rest);
    assert(!has_drive(behind)) by {
        if has_drive(behind) {
            if first.len() >= 2 {
                assert(behind[0] == first[0] && behind[1] == first[1]);
            } else {
                assert(behind[1] == rest[0]);
            }
        }
    }
    assert forall|j: int| 0 <= j < first.len() implies !sep.hold(#[trigger] behind[j]) by {
        assert(behind[j] == first[j]);
        assert(first.contains(first[j]));
    }
    if rest.len() > 0 {
        assert(behind[first.len() as int] == rest[0]);
    }
    head_is_first(behind, sep, first.len() as int);
}

proof fn verbatim_share_prefix(server: Seq<char>, share: Seq<char>, rest: Seq<char>)
    requires
        !server.contains('\\'),
        share.len() > 0,
        !share.contains('\\'),
        rest.len() == 0 || rest[0] == '\\',
    ensures
        windows_prefix(
            seq!['\\', '\\', '?', '\\', 'U', 'N', 'C', '\\'] + server + seq!['\\'] + share + rest,
        ) == ((9 + server.len() + share.len()) as nat, Separators::Verbatim),
{
    reveal_strlit("\\\\?\\");
    reveal_strlit("\\\\?\\UNC\\");
    let sep = Separators::Verbatim;
    let path = seq!['\\', '\\', '?', '\\', 'U', 'N', 'C', '\\'] + server + seq!['\\'] + share
        + rest;
    let n = server.len() as int;
    assert(opens(path, "\\\\?\\"@));
    assert(!path.take(4).contains('/'));
    assert(opens(path, "\\\\?\\UNC\\"@));
    let one = path.skip(8);
    assert(one =~= server + seq!['\\'] + share + rest);
    assert forall|j: int| 0 <= j < n implies !sep.hold(#[trigger] one[j]) by {
        assert(one[j] == server[j]);
        assert(server.contains(server[j]));
    }
    head_is_first(one, sep, n);
    let two = behind_head(one, sep);
    assert(two =~= share + rest);
    assert forall|j: int| 0 <= j < share.len() implies !sep.hold(#[trigger] two[j]) by {
        assert(two[j] == share[j]);
        assert(share.contains(share[j]));
    }
    if rest.len() > 0 {
        assert(two[share.len() as int] == rest[0]);
    }
    head_is_first(two, sep, share.len() as int);
}

/// On Windows a separator at the end of a path with a drive, and a dot behind one, do not matter for
/// its file name.
pub proof fn windows_name_disregards_the_end(drive: char, rest: Seq<char>)
    requires
        'a' <= drive <= 'z' || 'A' <= drive <= 'Z',
    ensures
        file_name(seq![drive, ':'] + rest.push('\\'), Platform::Windows) == file_name(
            seq![drive, ':'] + rest,
            Platform::Windows,
        ),
        file_name(seq![drive, ':'] + rest.push('\\').push('.'), Platform::Windows) == file_name(
            seq![drive, ':'] + rest,
            Platform::Windows,
        ),
{
    let sep = Separators::Both;
    let slash = rest.push('\\');
    let dot = slash.push('.');
    drive_prefix(drive, rest);
    drive_prefix(drive, slash);
    drive_prefix(drive, dot);
    assert((seq![drive, ':'] + rest).skip(2) =~= rest);
    assert((seq![drive, ':'] + slash).skip(2) =~= slash);
    assert((seq![drive, ':'] + dot).skip(2) =~= dot);
    assert(slash.drop_last() =~= rest);
    assert(dot.drop_last() =~= slash);
    assert(last_part(slash, sep) == Seq::<char>::empty());
    assert(last_part(dot, sep) =~= seq!['.']);
    assert(without_tail(slash, sep) == without_tail(rest, sep));
    assert(without_tail(dot, sep) == without_tail(slash, sep));
}

/// Behind `\\?\` a dot as the last component is not skipped, and is no file name.
pub proof fn verbatim_dot_is_no_name(drive: char, dir: Seq<char>)
    requires
        'a' <= drive <= 'z' || 'A' <= drive <= 'Z',
        dir.len() > 0,
        dir[0] == '\\',
        dir.last() == '\\',
    ensures
        file_name(
            seq!['\\', '\\', '?', '\\', drive, ':'] + dir.push('.'),
            Platform::Windows,
        ) is None,
{
    let sep = Separators::Verbatim;
    let root = seq!['\\', '\\', '?', '\\', drive, ':'];
    let end = dir.push('.');
    assert(end[0] == dir[0]);
    verbatim_drive_prefix(drive, end);
    assert((root + end).skip(6) =~= end);
    assert(end.drop_last() =~= dir);
    assert(without_tail(end, sep) == end);
    assert(last_part(dir, sep) == Seq::<char>::empty());
    assert(last_part(end, sep) =~= seq!['.']);
}

proof fn drive_prefix(drive: char, rest: Seq<char>)
    requires
        'a' <= drive <= 'z' || 'A' <= drive <= 'Z',
    ensures
        windows_prefix(seq![drive, ':'] + rest) == (2nat, Separators::Both),
{
    reveal_strlit("\\\\?\\");
    reveal_strlit("\\\\.\\");
    reveal_strlit("\\\\");
    let path = seq![drive, ':'] + rest;
    assert("\\\\"@[0] == '\\');
    assert("\\\\?\\"@[0] == '\\');
    assert("\\\\.\\"@[0] == '\\');
    assert(path[0] == drive);
}

} // verus!
