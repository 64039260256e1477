//! Path parsing, normalisation, validation and resolution, with the checks
//! that keep a path from escaping the directory it is resolved in.

use vstd::prelude::*;
use vstd::string::*;
use crate::shared::{
    ErrorView, InodeNumber, VexfsError, VexfsResult, VEXFS_ROOT_INO, message, result_is,
    unit_result_is,
};
use crate::text::str_eq;
use crate::shared::FileType;
use crate::fs_core::inode::{Inode, InodeManager, loaded_inode};

verus! {

/// Longest path component accepted, in bytes.
pub const MAX_COMPONENT_LENGTH: usize = 255;

/// Largest number of components in a path.
pub const MAX_PATH_DEPTH: usize = 32;

/// One component of a path.
#[derive(Debug, PartialEq, Eq)]
pub enum PathComponent {
    /// A directory or file name.
    Normal(String),
    /// The current directory, ".".
    Current,
    /// The parent directory, "..".
    Parent,
    /// The root directory, "/".
    Root,
}

/// A path component with its name as a character sequence.
pub enum ComponentView {
    Normal(Seq<char>),
    Current,
    Parent,
    Root,
}

impl View for PathComponent {
    type V = ComponentView;

    open spec fn view(&self) -> ComponentView {
        match self {
            PathComponent::Normal(s) => ComponentView::Normal(s@),
            PathComponent::Current => ComponentView::Current,
            PathComponent::Parent => ComponentView::Parent,
            PathComponent::Root => ComponentView::Root,
        }
    }
}

impl Clone for PathComponent {
    fn clone(&self) -> (r: Self)
        ensures
            r == *self,
    {
        match self {
            PathComponent::Normal(s) => PathComponent::Normal(s.clone()),
            PathComponent::Current => PathComponent::Current,
            PathComponent::Parent => PathComponent::Parent,
            PathComponent::Root => PathComponent::Root,
        }
    }
}

/// Length of a text in bytes (UTF-8).
pub open spec fn byte_len(s: Seq<char>) -> nat {
    vstd::utf8::encode_utf8(s).len()
}

/// The text a component stands for.
pub open spec fn component_text(c: ComponentView) -> Seq<char> {
    match c {
        ComponentView::Normal(s) => s,
        ComponentView::Current => "."@,
        ComponentView::Parent => ".."@,
        ComponentView::Root => "/"@,
    }
}

/// Device names that other systems reserve.
pub open spec fn is_reserved_name(n: Seq<char>) -> bool {
    ||| n == "CON"@
    ||| n == "PRN"@
    ||| n == "AUX"@
    ||| n == "NUL"@
    ||| n == "COM1"@
    ||| n == "COM2"@
    ||| n == "COM3"@
    ||| n == "COM4"@
    ||| n == "COM5"@
    ||| n == "COM6"@
    ||| n == "COM7"@
    ||| n == "COM8"@
    ||| n == "COM9"@
    ||| n == "LPT1"@
    ||| n == "LPT2"@
    ||| n == "LPT3"@
    ||| n == "LPT4"@
    ||| n == "LPT5"@
    ||| n == "LPT6"@
    ||| n == "LPT7"@
    ||| n == "LPT8"@
    ||| n == "LPT9"@
}

/// Whether a name holds a NUL or a slash.
pub open spec fn has_forbidden_char(n: Seq<char>) -> bool {
    exists|i: int| 0 <= i < n.len() && (n[i] == '\0' || n[i] == '/')
}

/// Why a name cannot be a path component, if it cannot.
pub open spec fn component_name_error(n: Seq<char>) -> Option<ErrorView> {
    if n.len() == 0 {
        Some(ErrorView::InvalidPath("Empty component name"@))
    } else if byte_len(n) > MAX_COMPONENT_LENGTH {
        Some(ErrorView::NameTooLong)
    } else if has_forbidden_char(n) {
        Some(ErrorView::InvalidPath("Invalid character in path component"@))
    } else if is_reserved_name(n) {
        Some(ErrorView::InvalidPath("Reserved name"@))
    } else {
        None
    }
}

/// The component a text parses to.
pub open spec fn parse_component(n: Seq<char>) -> Result<ComponentView, ErrorView> {
    if n == "."@ {
        Ok(ComponentView::Current)
    } else if n == ".."@ {
        Ok(ComponentView::Parent)
    } else if n == "/"@ || n.len() == 0 {
        Ok(ComponentView::Root)
    } else if byte_len(n) > MAX_COMPONENT_LENGTH {
        Err(ErrorView::NameTooLong)
    } else {
        match component_name_error(n) {
            Some(e) => Err(e),
            None => Ok(ComponentView::Normal(n)),
        }
    }
}

/// Length of a text in bytes.
fn byte_length(s: &str) -> (n: usize)
    ensures
        n == byte_len(s@),
{
    s.as_bytes().len()
}

/// Whether a name is one of the reserved device names.
fn is_reserved(name: &str) -> (b: bool)
    ensures
        b == is_reserved_name(name@),
{
    str_eq(name, "CON") || str_eq(name, "PRN") || str_eq(name, "AUX") || str_eq(name, "NUL")
        || str_eq(name, "COM1") || str_eq(name, "COM2") || str_eq(name, "COM3")
        || str_eq(name, "COM4") || str_eq(name, "COM5") || str_eq(name, "COM6")
        || str_eq(name, "COM7") || str_eq(name, "COM8") || str_eq(name, "COM9")
        || str_eq(name, "LPT1") || str_eq(name, "LPT2") || str_eq(name, "LPT3")
        || str_eq(name, "LPT4") || str_eq(name, "LPT5") || str_eq(name, "LPT6")
        || str_eq(name, "LPT7") || str_eq(name, "LPT8") || str_eq(name, "LPT9")
}

impl PathComponent {
    /// Parse one component: "." and ".." are special, "/" and the empty
    /// text stand for the root, anything else must be a valid name.
    pub fn from_str(name: &str) -> (r: VexfsResult<Self>)
        ensures
            result_is(r, parse_component(name@)),
    {
        if str_eq(name, ".") {
            Ok(PathComponent::Current)
        } else if str_eq(name, "..") {
            Ok(PathComponent::Parent)
        } else if str_eq(name, "/") || name.is_empty() {
            Ok(PathComponent::Root)
        } else {
            if byte_length(name) > MAX_COMPONENT_LENGTH {
                return Err(VexfsError::NameTooLong);
            }
            PathValidator::validate_component_name(name)?;
            Ok(PathComponent::Normal(message(name)))
        }
    }

    /// The text of the component.
    pub fn as_str(&self) -> (r: &str)
        ensures
            r@ == component_text(self@),
    {
        match self {
            PathComponent::Normal(name) => name.as_str(),
            PathComponent::Current => ".",
            PathComponent::Parent => "..",
            PathComponent::Root => "/",
        }
    }

    /// Whether this is "." or "..".
    pub fn is_special(&self) -> (b: bool)
        ensures
            b == (self@ is Current || self@ is Parent),
    {
        match self {
            PathComponent::Current | PathComponent::Parent => true,
            _ => false,
        }
    }

    /// Whether this is a name.
    pub fn is_normal(&self) -> (b: bool)
        ensures
            b == (self@ is Normal),
    {
        match self {
            PathComponent::Normal(_) => true,
            _ => false,
        }
    }

    /// Whether this is the root component.
    pub fn is_root(&self) -> (b: bool)
        ensures
            b == (self@ is Root),
    {
        match self {
            PathComponent::Root => true,
            _ => false,
        }
    }
}

/// Checks of names and paths.
pub struct PathValidator;

impl PathValidator {
    /// Check one component name: not empty, at most 255 bytes, no NUL or
    /// slash, not a reserved device name.
    pub fn validate_component_name(name: &str) -> (r: VexfsResult<()>)
        ensures
            match component_name_error(name@) {
                None => r is Ok,
                Some(e) => r matches Err(x) && x@ == e,
            },
    {
        if name.is_empty() {
            return Err(VexfsError::InvalidPath(message("Empty component name")));
        }
        if byte_length(name) > MAX_COMPONENT_LENGTH {
            return Err(VexfsError::NameTooLong);
        }
        let n = name.unicode_len();
        let mut i: usize = 0;
        while i < n
            invariant
                n == name@.len(),
                n > 0,
                byte_len(name@) <= MAX_COMPONENT_LENGTH,
                i <= n,
                forall|j: int| 0 <= j < i ==> name@[j] != '\0' && name@[j] != '/',
            decreases n - i,
        {
            let ch = name.get_char(i);
            if ch == '\0' || ch == '/' {
                assert(has_forbidden_char(name@)) by {
                    assert(name@[i as int] == ch);
                }
                return Err(VexfsError::InvalidPath(message("Invalid character in path component")));
            }
            i += 1;
        }
        if is_reserved(name) {
            return Err(VexfsError::InvalidPath(message("Reserved name")));
        }
        Ok(())
    }
}

/// A path with its components taken by their views.
pub struct PathView {
    pub components: Seq<ComponentView>,
    pub absolute: bool,
}

/// Splitting a text at slashes, after reading it from the left: the
/// non-empty pieces already closed by a slash, and the piece being read.
pub open spec fn scan_pieces(s: Seq<char>) -> (Seq<Seq<char>>, Seq<char>)
    decreases s.len(),
{
    if s.len() == 0 {
        (Seq::empty(), Seq::empty())
    } else {
        let prev = scan_pieces(s.drop_last());
        if s.last() == '/' {
            (if prev.1.len() > 0 { prev.0.push(prev.1) } else { prev.0 }, Seq::empty())
        } else {
            (prev.0, prev.1.push(s.last()))
        }
    }
}

/// The non-empty pieces of a text between slashes, in order.
pub open spec fn pieces(s: Seq<char>) -> Seq<Seq<char>> {
    let st = scan_pieces(s);
    if st.1.len() > 0 {
        st.0.push(st.1)
    } else {
        st.0
    }
}

/// Parse each piece as a component; the first piece that fails gives the
/// error.
pub open spec fn parse_pieces(ps: Seq<Seq<char>>) -> Result<Seq<ComponentView>, ErrorView>
    decreases ps.len(),
{
    if ps.len() == 0 {
        Ok(Seq::empty())
    } else {
        match parse_pieces(ps.drop_last()) {
            Err(e) => Err(e),
            Ok(cs) => match parse_component(ps.last()) {
                Err(e) => Err(e),
                Ok(c) => Ok(cs.push(c)),
            },
        }
    }
}

/// The path a text parses to: a leading slash makes it absolute and gives
/// it a root component; the pieces between slashes follow.
pub open spec fn parse_path(s: Seq<char>) -> Result<PathView, ErrorView> {
    if s.len() == 0 {
        Err(ErrorView::InvalidPath("Empty path"@))
    } else {
        let absolute = s[0] == '/';
        let rest = if absolute { s.drop_first() } else { s };
        match parse_pieces(pieces(rest)) {
            Err(e) => Err(e),
            Ok(cs) => {
                let all = if absolute { seq![ComponentView::Root] + cs } else { cs };
                if all.len() > MAX_PATH_DEPTH {
                    Err(ErrorView::PathTooLong)
                } else {
                    Ok(PathView { components: all, absolute })
                }
            },
        }
    }
}

/// Once parsing a list of pieces fails, more pieces do not change the error.
pub proof fn lemma_parse_pieces_error_sticks(ps: Seq<Seq<char>>, qs: Seq<Seq<char>>)
    requires
        parse_pieces(ps) is Err,
    ensures
        parse_pieces(ps + qs) == parse_pieces(ps),
    decreases qs.len(),
{
    if qs.len() == 0 {
        assert(ps + qs =~= ps);
    } else {
        lemma_parse_pieces_error_sticks(ps, qs.drop_last());
        assert((ps + qs).drop_last() =~= ps + qs.drop_last());
    }
}

/// A filesystem path.
pub struct Path {
    components: Vec<PathComponent>,
    absolute: bool,
}

impl View for Path {
    type V = PathView;

    closed spec fn view(&self) -> PathView {
        PathView {
            components: self.components@.map_values(|c: PathComponent| c@),
            absolute: self.absolute,
        }
    }
}

/// The views of a list of components.
pub open spec fn component_views(v: Seq<PathComponent>) -> Seq<ComponentView> {
    v.map_values(|c: PathComponent| c@)
}

impl Path {
    #[verifier::type_invariant]
    spec fn depth_bounded(self) -> bool {
        self.components.len() <= MAX_PATH_DEPTH
    }

    /// Parse a path.
    pub fn from_str(path_str: &str) -> (r: VexfsResult<Self>)
        ensures
            result_is(r, parse_path(path_str@)),
    {
        let n = path_str.unicode_len();
        if n == 0 {
            return Err(VexfsError::InvalidPath(message("Empty path")));
        }
        let absolute = path_str.get_char(0) == '/';
        let start: usize = if absolute { 1 } else { 0 };
        let ghost rest = if absolute { path_str@.drop_first() } else { path_str@ };
        assert(rest =~= path_str@.subrange(start as int, n as int));
        // Split the text after the leading slash into its non-empty pieces.
        let mut texts: Vec<&str> = Vec::new();
        let mut piece_start = start;
        let mut i = start;
        while i < n
            invariant
                n == path_str@.len(),
                start <= piece_start <= i <= n,
                rest == path_str@.subrange(start as int, n as int),
                scan_pieces(path_str@.subrange(start as int, i as int)) == (
                    texts@.map_values(|t: &str| t@),
                    path_str@.subrange(piece_start as int, i as int),
                ),
            decreases n - i,
        {
            let ghost before = path_str@.subrange(start as int, i as int);
            let ch = path_str.get_char(i);
            proof {
                assert(path_str@.subrange(start as int, i + 1).drop_last() =~= before);
                assert(path_str@.subrange(start as int, i + 1).last() == ch);
            }
            if ch == '/' {
                if i > piece_start {
                    let piece = path_str.substring_char(piece_start, i);
                    texts.push(piece);
                    assert(texts@.map_values(|t: &str| t@) =~= scan_pieces(before).0.push(scan_pieces(before).1));
                }
                piece_start = i + 1;
                assert(path_str@.subrange(piece_start as int, i + 1) =~= Seq::<char>::empty());
            } else {
                assert(path_str@.subrange(piece_start as int, i + 1) =~= path_str@.subrange(piece_start as int, i as int).push(ch));
            }
            i += 1;
        }
        if n > piece_start {
            let piece = path_str.substring_char(piece_start, n);
            texts.push(piece);
        }
        assert(path_str@.subrange(start as int, n as int) =~= rest);
        assert(texts@.map_values(|t: &str| t@) =~= pieces(rest));
        // Parse the pieces in order.
        let mut components: Vec<PathComponent> = Vec::new();
        if absolute {
            components.push(PathComponent::Root);
        }
        let ghost prefix = component_views(components@);
        let ghost ps = pieces(rest);
        let mut k: usize = 0;
        while k < texts.len()
            invariant
                ps == texts@.map_values(|t: &str| t@),
                ps == pieces(rest),
                path_str@.len() > 0,
                absolute == (path_str@[0] == '/'),
                rest == if absolute { path_str@.drop_first() } else { path_str@ },
                k <= texts.len(),
                prefix == (if absolute { seq![ComponentView::Root] } else { Seq::<ComponentView>::empty() }),
                parse_pieces(ps.subrange(0, k as int)) matches Ok(cs)
                    && component_views(components@) == prefix + cs,
            decreases texts.len() - k,
        {
            let ghost done = ps.subrange(0, k as int);
            assert(ps.subrange(0, k + 1).drop_last() =~= done);
            let c = match PathComponent::from_str(texts[k]) {
                Ok(c) => c,
                Err(e) => {
                    proof {
                        lemma_parse_pieces_error_sticks(ps.subrange(0, k + 1), ps.subrange(k + 1, ps.len() as int));
                        assert(ps.subrange(0, k + 1) + ps.subrange(k + 1, ps.len() as int) =~= ps);
                    }
                    return Err(e);
                },
            };
            let ghost before = components@;
            components.push(c);
            proof {
                let cs = parse_pieces(done)->Ok_0;
                assert(components@ =~= before.push(c));
                assert(component_views(components@) =~= component_views(before).push(c@));
                assert(component_views(components@) =~= prefix + cs.push(c@));
            }
            k += 1;
        }
        assert(ps.subrange(0, texts.len() as int) =~= ps);
        if components.len() > MAX_PATH_DEPTH {
            return Err(VexfsError::PathTooLong);
        }
        Ok(Path { components, absolute })
    }

    /// The components of the path.
    pub fn components(&self) -> (r: &[PathComponent])
        ensures
            component_views(r@) == self@.components,
    {
        self.components.as_slice()
    }

    /// Whether the path starts at the root.
    pub fn is_absolute(&self) -> (b: bool)
        ensures
            b == self@.absolute,
    {
        self.absolute
    }

    /// The path without its last component; none for a path of at most one
    /// component.
    pub fn parent(&self) -> (r: Option<Self>)
        ensures
            match r {
                None => self@.components.len() <= 1,
                Some(p) => self@.components.len() > 1 && p@ == (PathView {
                    components: self@.components.drop_last(),
                    absolute: self@.absolute,
                }),
            },
    {
        proof {
            use_type_invariant(self);
        }
        if self.components.len() <= 1 {
            return None;
        }
        let mut parent_components = clone_components(&self.components);
        parent_components.pop();
        assert(component_views(parent_components@) =~= self@.components.drop_last());
        Some(Path { components: parent_components, absolute: self.absolute })
    }

    /// The last component, if any.
    pub fn file_name(&self) -> (r: Option<&PathComponent>)
        ensures
            match r {
                None => self@.components.len() == 0,
                Some(c) => self@.components.len() > 0 && c@ == self@.components.last(),
            },
    {
        let n = self.components.len();
        if n == 0 {
            None
        } else {
            Some(&self.components[n - 1])
        }
    }

    /// Resolve "." and ".." components as far as the path itself allows.
    pub fn normalize(&self) -> (r: VexfsResult<Self>)
        ensures
            r matches Ok(p) && p@ == normalized(self@),
    {
        proof {
            use_type_invariant(self);
        }
        let n = self.components.len();
        let mut out: Vec<PathComponent> = Vec::new();
        let mut i: usize = 0;
        while i < n
            invariant
                n == self.components.len(),
                n <= MAX_PATH_DEPTH,
                i <= n,
                out.len() <= i,
                component_views(out@) == normalize_fold(self@.components.subrange(0, i as int), self@.absolute),
            decreases n - i,
        {
            let ghost before = out@;
            let ghost acc = component_views(out@);
            let c = &self.components[i];
            proof {
                assert(self@.components.subrange(0, i + 1).drop_last() =~= self@.components.subrange(0, i as int));
                assert(self@.components.subrange(0, i + 1).last() == c@);
            }
            match c {
                PathComponent::Current => {},
                PathComponent::Parent => {
                    let m = out.len();
                    if m > 0 && out[m - 1].is_normal() {
                        out.pop();
                        assert(out@ =~= before.drop_last());
                        assert(component_views(out@) =~= acc.drop_last());
                    } else if !self.absolute {
                        out.push(PathComponent::Parent);
                        assert(component_views(out@) =~= acc.push(ComponentView::Parent));
                    }
                },
                _ => {
                    out.push(c.clone());
                    assert(component_views(out@) =~= acc.push(c@));
                },
            }
            i += 1;
        }
        assert(self@.components.subrange(0, n as int) =~= self@.components);
        if out.len() == 0 && self.absolute {
            out.push(PathComponent::Root);
            assert(component_views(out@) =~= seq![ComponentView::Root]);
        }
        Ok(Path { components: out, absolute: self.absolute })
    }

    /// The path with one more component appended.
    pub fn join(&self, component: &str) -> (r: VexfsResult<Self>)
        ensures
            result_is(r, joined(self@, component@)),
    {
        let new_component = PathComponent::from_str(component)?;
        let mut new_components = clone_components(&self.components);
        new_components.push(new_component);
        if new_components.len() > MAX_PATH_DEPTH {
            return Err(VexfsError::PathTooLong);
        }
        assert(component_views(new_components@) =~= self@.components.push(new_component@));
        Ok(Path { components: new_components, absolute: self.absolute })
    }

    /// The text of the path: "/" or "." for a path without components,
    /// otherwise the components separated by slashes.
    pub fn to_string(&self) -> (r: String)
        ensures
            r@ == path_text(self@),
    {
        let n = self.components.len();
        if n == 0 {
            return if self.absolute { message("/") } else { message(".") };
        }
        let mut result = String::new();
        let mut i: usize = 0;
        while i < n
            invariant
                n == self.components.len(),
                n == self@.components.len(),
                i <= n,
                result@ == render_upto(self@.components, i as nat),
            decreases n - i,
        {
            let c = &self.components[i];
            assert(c@ == self@.components[i as int]);
            if c.is_root() {
                if i == 0 {
                    result.append("/");
                }
            } else {
                if i > 0 && !self.components[i - 1].is_root() {
                    result.append("/");
                }
                result.append(c.as_str());
            }
            proof {
                reveal_strlit("/");
                assert(result@ =~= render_upto(self@.components, i as nat) + piece_text(self@.components, i as int));
            }
            i += 1;
        }
        result
    }
}

/// A copy of a list of components.
fn clone_components(v: &Vec<PathComponent>) -> (r: Vec<PathComponent>)
    ensures
        r@ == v@,
{
    let mut r: Vec<PathComponent> = Vec::new();
    let mut i: usize = 0;
    while i < v.len()
        invariant
            i <= v.len(),
            r@ == v@.subrange(0, i as int),
        decreases v.len() - i,
    {
        r.push(v[i].clone());
        assert(r@ =~= v@.subrange(0, i + 1));
        i += 1;
    }
    assert(r@ =~= v@);
    r
}

/// One step of normalisation: "." is dropped, ".." removes the last
/// component when that is a name; otherwise a relative path keeps the ".."
/// (it cannot go further) and an absolute path drops it (".." at the root is
/// the root); anything else is kept.
pub open spec fn normalize_step(acc: Seq<ComponentView>, c: ComponentView, absolute: bool) -> Seq<ComponentView> {
    match c {
        ComponentView::Current => acc,
        ComponentView::Parent => {
            if acc.len() > 0 && acc.last() is Normal {
                acc.drop_last()
            } else if !absolute {
                acc.push(c)
            } else {
                acc
            }
        },
        _ => acc.push(c),
    }
}

/// Normalisation of a list of components, from the left.
pub open spec fn normalize_fold(cs: Seq<ComponentView>, absolute: bool) -> Seq<ComponentView>
    decreases cs.len(),
{
    if cs.len() == 0 {
        Seq::empty()
    } else {
        normalize_step(normalize_fold(cs.drop_last(), absolute), cs.last(), absolute)
    }
}

/// A list of components that normalisation leaves as it is: no ".", and a
/// ".." only in a relative path, at the start or after another component
/// that is not a name.
pub open spec fn in_normal_form(cs: Seq<ComponentView>, absolute: bool) -> bool {
    forall|i: int|
        0 <= i < cs.len() ==> !(#[trigger] cs[i] is Current) && (cs[i] is Parent ==> !absolute && (i == 0
            || !(cs[i - 1] is Normal)))
}

/// Normalisation always yields a list in normal form.
pub proof fn lemma_normalize_fold_normal(cs: Seq<ComponentView>, absolute: bool)
    ensures
        in_normal_form(normalize_fold(cs, absolute), absolute),
    decreases cs.len(),
{
    if cs.len() > 0 {
        lemma_normalize_fold_normal(cs.drop_last(), absolute);
        let acc = normalize_fold(cs.drop_last(), absolute);
        let r = normalize_fold(cs, absolute);
        assert forall|i: int| 0 <= i < r.len() implies !(#[trigger] r[i] is Current) && (r[i] is Parent
            ==> !absolute && (i == 0 || !(r[i - 1] is Normal))) by {
            if i < acc.len() && r.len() <= acc.len() + 1 && (r.len() == acc.len() + 1 || r.len() == acc.len()) {
                if r.len() == acc.len() {
                    assert(r =~= acc);
                } else {
                    assert(r[i] == acc[i]);
                    if i > 0 {
                        assert(r[i - 1] == acc[i - 1]);
                    }
                }
            }
            if r.len() + 1 == acc.len() {
                assert(r =~= acc.drop_last());
                assert(r[i] == acc[i]);
                if i > 0 {
                    assert(r[i - 1] == acc[i - 1]);
                }
            }
        }
    }
}

/// A list already in normal form is left as it is.
pub proof fn lemma_normalize_fold_fixes_normal(cs: Seq<ComponentView>, absolute: bool)
    requires
        in_normal_form(cs, absolute),
    ensures
        normalize_fold(cs, absolute) == cs,
    decreases cs.len(),
{
    if cs.len() > 0 {
        let d = cs.drop_last();
        assert(in_normal_form(d, absolute)) by {
            assert forall|i: int| 0 <= i < d.len() implies !(#[trigger] d[i] is Current) && (d[i] is Parent
                ==> !absolute && (i == 0 || !(d[i - 1] is Normal))) by {
                assert(d[i] == cs[i]);
                if i > 0 {
                    assert(d[i - 1] == cs[i - 1]);
                }
            }
        }
        lemma_normalize_fold_fixes_normal(d, absolute);
        let n = cs.len() - 1;
        assert(cs[n] == cs.last());
        if n > 0 {
            assert(d.last() == cs[n - 1]);
        }
        assert(d.push(cs.last()) =~= cs);
    }
}

/// Normalising a normalised path changes nothing.
pub proof fn lemma_normalize_idempotent(p: PathView)
    ensures
        normalized(normalized(p)) == normalized(p),
{
    lemma_normalize_fold_normal(p.components, p.absolute);
    let q = normalized(p);
    let n = normalize_fold(p.components, p.absolute);
    if n.len() == 0 && p.absolute {
        let r = seq![ComponentView::Root];
        assert(in_normal_form(r, p.absolute));
        lemma_normalize_fold_fixes_normal(r, p.absolute);
    } else {
        lemma_normalize_fold_fixes_normal(n, p.absolute);
    }
}

/// The normalised path; an absolute path keeps at least its root.
pub open spec fn normalized(p: PathView) -> PathView {
    let n = normalize_fold(p.components, p.absolute);
    PathView { components: if n.len() == 0 && p.absolute { seq![ComponentView::Root] } else { n }, absolute: p.absolute }
}

/// The path with a component parsed from `name` appended.
pub open spec fn joined(p: PathView, name: Seq<char>) -> Result<PathView, ErrorView> {
    match parse_component(name) {
        Err(e) => Err(e),
        Ok(c) => {
            if p.components.len() + 1 > MAX_PATH_DEPTH {
                Err(ErrorView::PathTooLong)
            } else {
                Ok(PathView { components: p.components.push(c), absolute: p.absolute })
            }
        },
    }
}

/// The text the component at `i` contributes: the root gives a slash when
/// first; any other component gives its text, after a slash unless it is
/// first or follows the root.
pub open spec fn piece_text(cs: Seq<ComponentView>, i: int) -> Seq<char> {
    if cs[i] is Root {
        if i == 0 { "/"@ } else { Seq::empty() }
    } else {
        (if i > 0 && !(cs[i - 1] is Root) { "/"@ } else { Seq::empty() }) + component_text(cs[i])
    }
}

/// The text of the first `k` components.
pub open spec fn render_upto(cs: Seq<ComponentView>, k: nat) -> Seq<char>
    decreases k,
{
    if k == 0 {
        Seq::empty()
    } else {
        render_upto(cs, (k - 1) as nat) + piece_text(cs, k - 1)
    }
}

/// The text of a path.
pub open spec fn path_text(p: PathView) -> Seq<char> {
    if p.components.len() == 0 {
        if p.absolute { "/"@ } else { "."@ }
    } else {
        render_upto(p.components, p.components.len())
    }
}

/// Parent references and remaining depth, counted over a list of
/// components: ".." adds a parent reference and lowers the depth (not below
/// zero), a name raises it.
pub open spec fn depth_count(cs: Seq<ComponentView>) -> (nat, nat)
    decreases cs.len(),
{
    if cs.len() == 0 {
        (0, 0)
    } else {
        let prev = depth_count(cs.drop_last());
        match cs.last() {
            ComponentView::Parent => ((prev.0 + 1) as nat, if prev.1 > 0 { (prev.1 - 1) as nat } else { 0 }),
            ComponentView::Normal(_) => (prev.0, prev.1 + 1),
            _ => prev,
        }
    }
}

/// The outcome of validating a path: a relative path with more than 16
/// parent references after normalisation is refused, and so is one deeper
/// than 32.
pub open spec fn path_check(p: PathView) -> Result<(), ErrorView> {
    let counts = depth_count(normalized(p).components);
    if !p.absolute && counts.0 > MAX_PATH_DEPTH / 2 {
        Err(ErrorView::InvalidPath("Excessive parent directory references"@))
    } else if counts.1 > MAX_PATH_DEPTH {
        Err(ErrorView::PathTooLong)
    } else {
        Ok(())
    }
}

/// The depth reached walking the components from `start`: ".." lowers it
/// and fails below zero, a name raises it, the root resets it.
pub open spec fn traversal_walk(cs: Seq<ComponentView>, start: int) -> Option<int>
    decreases cs.len(),
{
    if cs.len() == 0 {
        Some(start)
    } else {
        match traversal_walk(cs.drop_last(), start) {
            None => None,
            Some(d) => match cs.last() {
                ComponentView::Parent => if d - 1 < 0 { None } else { Some(d - 1) },
                ComponentView::Normal(_) => Some(d + 1),
                ComponentView::Root => Some(0),
                ComponentView::Current => Some(d),
            },
        }
    }
}

/// Whether the walk from `start` leaves the range of a 32-bit signed
/// counter before it ends or fails.
pub open spec fn traversal_overflows(cs: Seq<ComponentView>, start: int) -> bool
    decreases cs.len(),
{
    if cs.len() == 0 {
        false
    } else {
        traversal_overflows(cs.drop_last(), start) || match traversal_walk(cs.drop_last(), start) {
            None => false,
            Some(d) => match cs.last() {
                ComponentView::Parent => d - 1 < i32::MIN,
                ComponentView::Normal(_) => d + 1 > i32::MAX,
                _ => false,
            },
        }
    }
}

impl PathValidator {
    /// Check a path for traversal abuse: after normalisation, a relative
    /// path may hold at most 16 parent references, and no path may be
    /// deeper than 32 components.
    pub fn validate_path(path: &Path) -> (r: VexfsResult<()>)
        ensures
            unit_result_is(r, path_check(path@)),
    {
        let normalized = match path.normalize() {
            Ok(p) => p,
            Err(e) => return Err(e),
        };
        proof {
            use_type_invariant(&normalized);
        }
        let comps = normalized.components();
        let n = comps.len();
        let mut parent_count: usize = 0;
        let mut depth: u32 = 0;
        let mut i: usize = 0;
        while i < n
            invariant
                n == comps@.len(),
                n <= MAX_PATH_DEPTH,
                component_views(comps@) == normalized@.components,
                i <= n,
                parent_count <= i,
                depth <= i,
                (parent_count as nat, depth as nat) == depth_count(normalized@.components.subrange(0, i as int)),
            decreases n - i,
        {
            proof {
                assert(normalized@.components.subrange(0, i + 1).drop_last() =~= normalized@.components.subrange(0, i as int));
                assert(normalized@.components.subrange(0, i + 1).last() == comps@[i as int]@);
            }
            match &comps[i] {
                PathComponent::Parent => {
                    parent_count += 1;
                    depth = depth.saturating_sub(1u32);
                },
                PathComponent::Normal(_) => {
                    depth += 1u32;
                },
                _ => {},
            }
            i += 1;
        }
        assert(normalized@.components.subrange(0, n as int) =~= normalized@.components);
        if !path.is_absolute() && parent_count > MAX_PATH_DEPTH / 2 {
            return Err(VexfsError::InvalidPath(message("Excessive parent directory references")));
        }
        if depth as usize > MAX_PATH_DEPTH {
            return Err(VexfsError::PathTooLong);
        }
        Ok(())
    }

    /// Check that walking the raw components from `base_depth` never climbs
    /// above the starting point's root: a ".." that would take the depth
    /// below zero is refused.
    pub fn check_traversal_safety(path: &Path, base_depth: usize) -> (r: VexfsResult<()>)
        requires
            !traversal_overflows(path@.components, (#[verifier::truncate] (base_depth as i32)) as int),
        ensures
            match traversal_walk(path@.components, (#[verifier::truncate] (base_depth as i32)) as int) {
                Some(_) => r is Ok,
                None => r matches Err(e) && e@ == ErrorView::PermissionDenied("Directory traversal attempt detected"@),
            },
    {
        proof {
            use_type_invariant(path);
        }
        let comps = path.components();
        let n = comps.len();
        let ghost start = (#[verifier::truncate] (base_depth as i32)) as int;
        let mut current_depth: i64 = (#[verifier::truncate] (base_depth as i32)) as i64;
        let mut i: usize = 0;
        while i < n
            invariant
                n == comps@.len(),
                n <= MAX_PATH_DEPTH,
                component_views(comps@) == path@.components,
                i <= n,
                i32::MIN <= start <= i32::MAX,
                start == (#[verifier::truncate] (base_depth as i32)) as int,
                traversal_walk(path@.components.subrange(0, i as int), start) == Some(current_depth as int),
                i32::MIN - i <= current_depth <= i32::MAX + i,
            decreases n - i,
        {
            proof {
                assert(path@.components.subrange(0, i + 1).drop_last() =~= path@.components.subrange(0, i as int));
                assert(path@.components.subrange(0, i + 1).last() == comps@[i as int]@);
            }
            match &comps[i] {
                PathComponent::Parent => {
                    current_depth -= 1;
                    if current_depth < 0 {
                        proof {
                            let pre = path@.components.subrange(0, i + 1);
                            assert(traversal_walk(pre.drop_last(), start) == Some(current_depth + 1));
                            assert(pre.last() is Parent);
                            assert(traversal_walk(pre, start) is None);
                            lemma_traversal_fails_later(path@.components, start, i as int + 1);
                        }
                        return Err(VexfsError::PermissionDenied(message("Directory traversal attempt detected")));
                    }
                },
                PathComponent::Normal(_) => {
                    current_depth += 1;
                },
                PathComponent::Root => {
                    current_depth = 0;
                },
                PathComponent::Current => {},
            }
            i += 1;
        }
        assert(path@.components.subrange(0, n as int) =~= path@.components);
        Ok(())
    }
}

/// Once the walk over a prefix fails, the walk over the whole list fails.
proof fn lemma_traversal_fails_later(cs: Seq<ComponentView>, start: int, k: int)
    requires
        0 <= k <= cs.len(),
        traversal_walk(cs.subrange(0, k), start) is None,
    ensures
        traversal_walk(cs, start) is None,
    decreases cs.len() - k,
{
    if k == cs.len() {
        assert(cs.subrange(0, k) =~= cs);
    } else {
        assert(cs.subrange(0, k + 1).drop_last() =~= cs.subrange(0, k));
        lemma_traversal_fails_later(cs, start, k + 1);
    }
}

/// Walking the components of a normalised path from the inode `start`:
/// the root and ".." lead to the root inode, "." stays; the first name is
/// looked up in the directory reached so far, which gives its directory and
/// the name as the error side.
pub open spec fn resolve_walk(cs: Seq<ComponentView>, start: u64) -> Result<u64, (u64, Seq<char>)>
    decreases cs.len(),
{
    if cs.len() == 0 {
        Ok(start)
    } else {
        match resolve_walk(cs.drop_last(), start) {
            Err(x) => Err(x),
            Ok(cur) => match cs.last() {
                ComponentView::Root => Ok(VEXFS_ROOT_INO),
                ComponentView::Current => Ok(cur),
                ComponentView::Parent => Ok(VEXFS_ROOT_INO),
                ComponentView::Normal(name) => Err((cur, name)),
            },
        }
    }
}

/// The inode a path starts from: the root for an absolute path, the
/// current directory otherwise.
pub open spec fn walk_start(p: PathView, current_dir: u64) -> u64 {
    if p.absolute { VEXFS_ROOT_INO } else { current_dir }
}

/// The directory in which resolving the path looks up a name, if it gets
/// that far.
pub open spec fn lookup_dir(p: PathView, current_dir: u64) -> Option<u64> {
    if path_check(p) is Ok {
        match resolve_walk(normalized(p).components, walk_start(p, current_dir)) {
            Ok(_) => None,
            Err(x) => Some(x.0),
        }
    } else {
        None
    }
}

/// The inode cache once `d` was read into it.
pub open spec fn cache_with(cache: Map<u64, Inode>, d: u64) -> Map<u64, Inode> {
    if cache.contains_key(d) { cache } else { cache.insert(d, loaded_inode(d)) }
}

/// The inode cache after resolving a path.
pub open spec fn cache_after_resolve(cache: Map<u64, Inode>, p: PathView, current_dir: u64) -> Map<u64, Inode> {
    match lookup_dir(p, current_dir) {
        None => cache,
        Some(d) => cache_with(cache, d),
    }
}

/// What resolving a path gives: the validation error if it fails; the inode
/// reached if the path holds no name; otherwise the lookup of the first
/// name fails, with `NotADirectory` where the directory inode is no
/// directory and `EntryNotFound` where it is, since entries are not looked
/// up in directory contents.
pub open spec fn resolve_outcome(cache: Map<u64, Inode>, p: PathView, current_dir: u64) -> Result<u64, ErrorView> {
    match path_check(p) {
        Err(e) => Err(e),
        Ok(_) => match resolve_walk(normalized(p).components, walk_start(p, current_dir)) {
            Ok(i) => Ok(i),
            Err(x) => {
                if cache_with(cache, x.0)[x.0].file_type == FileType::Directory {
                    Err(ErrorView::EntryNotFound(x.1))
                } else {
                    Err(ErrorView::NotADirectory(x.0))
                }
            },
        },
    }
}

/// Whether the inode manager can read the directory that resolving the path
/// looks into (inode 0 cannot be read unless cached).
pub open spec fn resolvable(cache: Map<u64, Inode>, p: PathView, current_dir: u64) -> bool {
    match lookup_dir(p, current_dir) {
        None => true,
        Some(d) => cache.contains_key(d) || d > 0,
    }
}

/// Turning paths into inode numbers.
pub struct PathResolver;

impl PathResolver {
    /// Resolve a path to an inode number, starting from `current_dir` for a
    /// relative path.
    pub fn resolve_path(inode_manager: &mut InodeManager, current_dir: InodeNumber, path: &Path) -> (r:
        VexfsResult<InodeNumber>)
        requires
            old(inode_manager).wf(),
            resolvable(old(inode_manager).cache(), path@, current_dir),
        ensures
            final(inode_manager).wf(),
            final(inode_manager).cache() == cache_after_resolve(old(inode_manager).cache(), path@, current_dir),
            final(inode_manager).dirty() == old(inode_manager).dirty(),
            final(inode_manager).next_ino() == old(inode_manager).next_ino(),
            final(inode_manager).free_list() == old(inode_manager).free_list(),
            result_is(r, resolve_outcome(old(inode_manager).cache(), path@, current_dir)),
    {
        PathValidator::validate_path(path)?;
        let norm = match path.normalize() {
            Ok(p) => p,
            Err(e) => return Err(e),
        };
        let mut current_inode = if norm.is_absolute() { VEXFS_ROOT_INO } else { current_dir };
        let comps = norm.components();
        let n = comps.len();
        let ghost cs = norm@.components;
        let ghost start = walk_start(path@, current_dir);
        let mut i: usize = 0;
        while i < n
            invariant
                n == comps@.len(),
                component_views(comps@) == cs,
                cs == normalized(path@).components,
                path_check(path@) is Ok,
                start == walk_start(path@, current_dir),
                i <= n,
                resolve_walk(cs.subrange(0, i as int), start) == Ok::<u64, (u64, Seq<char>)>(current_inode),
                inode_manager.wf(),
                *inode_manager == *old(inode_manager),
                resolvable(old(inode_manager).cache(), path@, current_dir),
            decreases n - i,
        {
            proof {
                assert(cs.subrange(0, i + 1).drop_last() =~= cs.subrange(0, i as int));
                assert(cs.subrange(0, i + 1).last() == comps@[i as int]@);
            }
            match &comps[i] {
                PathComponent::Root => {
                    current_inode = VEXFS_ROOT_INO;
                },
                PathComponent::Current => {},
                PathComponent::Parent => {
                    current_inode = Self::get_parent_inode(inode_manager, current_inode);
                },
                PathComponent::Normal(name) => {
                    proof {
                        lemma_resolve_walk_stops(cs, start, i as int + 1);
                    }
                    let e = Self::lookup_child(inode_manager, current_inode, name.as_str());
                    return Err(e);
                },
            }
            i += 1;
        }
        assert(cs.subrange(0, n as int) =~= cs);
        Ok(current_inode)
    }

    /// The parent of an inode. Directory entries are not read, so every
    /// inode is taken to hang directly below the root.
    fn get_parent_inode(_inode_manager: &mut InodeManager, _inode: InodeNumber) -> (r: InodeNumber)
        ensures
            r == VEXFS_ROOT_INO,
            *final(_inode_manager) == *old(_inode_manager),
    {
        VEXFS_ROOT_INO
    }

    /// Look a name up in a directory. Directory contents are not read, so
    /// the lookup fails: with `NotADirectory` where the inode is no
    /// directory, with `EntryNotFound` otherwise.
    fn lookup_child(inode_manager: &mut InodeManager, parent_inode: InodeNumber, name: &str) -> (e: VexfsError)
        requires
            old(inode_manager).wf(),
            old(inode_manager).cache().contains_key(parent_inode) || parent_inode > 0,
        ensures
            final(inode_manager).wf(),
            final(inode_manager).cache() == cache_with(old(inode_manager).cache(), parent_inode),
            final(inode_manager).dirty() == old(inode_manager).dirty(),
            final(inode_manager).next_ino() == old(inode_manager).next_ino(),
            final(inode_manager).free_list() == old(inode_manager).free_list(),
            e@ == if cache_with(old(inode_manager).cache(), parent_inode)[parent_inode].file_type
                == FileType::Directory {
                ErrorView::EntryNotFound(name@)
            } else {
                ErrorView::NotADirectory(parent_inode)
            },
    {
        let parent = match inode_manager.get_inode(parent_inode) {
            Ok(p) => p,
            Err(e) => return e,
        };
        if !parent.is_dir() {
            return VexfsError::NotADirectory(parent_inode);
        }
        VexfsError::EntryNotFound(message(name))
    }

    /// Resolve the directory that holds the last component of the path,
    /// and give that component's name.
    pub fn resolve_parent(inode_manager: &mut InodeManager, current_dir: InodeNumber, path: &Path) -> (r:
        VexfsResult<(InodeNumber, String)>)
        requires
            old(inode_manager).wf(),
            path@.components.len() > 1 ==> resolvable(old(inode_manager).cache(), parent_view(path@), current_dir),
        ensures
            final(inode_manager).wf(),
            final(inode_manager).dirty() == old(inode_manager).dirty(),
            final(inode_manager).next_ino() == old(inode_manager).next_ino(),
            final(inode_manager).free_list() == old(inode_manager).free_list(),
            path@.components.len() <= 1 ==> final(inode_manager).cache() == old(inode_manager).cache(),
            path@.components.len() > 1 ==> final(inode_manager).cache() == cache_after_resolve(
                old(inode_manager).cache(), parent_view(path@), current_dir),
            result_is(r, parent_outcome(old(inode_manager).cache(), path@, current_dir)),
    {
        match path.parent() {
            Some(parent_path) => {
                let parent_inode = Self::resolve_path(inode_manager, current_dir, &parent_path)?;
                match path.file_name() {
                    Some(PathComponent::Normal(name)) => Ok((parent_inode, name.clone())),
                    Some(_) => Err(VexfsError::InvalidPath(message("Invalid file name component"))),
                    None => Err(VexfsError::InvalidPath(message("No file name in path"))),
                }
            },
            None => Err(VexfsError::InvalidPath(message("Cannot resolve parent of root"))),
        }
    }

    /// Whether one inode lies below another. Directory entries are not
    /// read, so no inode is reported as a descendant.
    pub fn is_descendant(_inode_manager: &mut InodeManager, _ancestor: InodeNumber, _descendant: InodeNumber) -> (r:
        VexfsResult<bool>)
        ensures
            r matches Ok(false),
            *final(_inode_manager) == *old(_inode_manager),
    {
        Ok(false)
    }
}

/// The path without its last component.
pub open spec fn parent_view(p: PathView) -> PathView {
    PathView { components: p.components.drop_last(), absolute: p.absolute }
}

/// What resolving the parent of a path gives.
pub open spec fn parent_outcome(cache: Map<u64, Inode>, p: PathView, current_dir: u64) -> Result<(u64, Seq<char>), ErrorView> {
    if p.components.len() <= 1 {
        Err(ErrorView::InvalidPath("Cannot resolve parent of root"@))
    } else {
        match resolve_outcome(cache, parent_view(p), current_dir) {
            Err(e) => Err(e),
            Ok(i) => match p.components.last() {
                ComponentView::Normal(name) => Ok((i, name)),
                _ => Err(ErrorView::InvalidPath("Invalid file name component"@)),
            },
        }
    }
}

/// Once the walk stops at a name, further components do not change it.
proof fn lemma_resolve_walk_stops(cs: Seq<ComponentView>, start: u64, k: int)
    requires
        0 <= k <= cs.len(),
        resolve_walk(cs.subrange(0, k), start) is Err,
    ensures
        resolve_walk(cs, start) == resolve_walk(cs.subrange(0, k), start),
    decreases cs.len() - k,
{
    if k == cs.len() {
        assert(cs.subrange(0, k) =~= cs);
    } else {
        assert(cs.subrange(0, k + 1).drop_last() =~= cs.subrange(0, k));
        lemma_resolve_walk_stops(cs, start, k + 1);
    }
}

/// A piece of path text that parses to a component other than the root:
/// not empty, without a slash, and accepted as ".", ".." or a name.
pub open spec fn valid_piece(p: Seq<char>) -> bool {
    p.len() > 0 && !p.contains('/') && parse_component(p) is Ok
}

/// Pieces joined by single slashes.
pub open spec fn joined_pieces(ps: Seq<Seq<char>>) -> Seq<char>
    decreases ps.len(),
{
    if ps.len() == 0 {
        Seq::empty()
    } else if ps.len() == 1 {
        ps[0]
    } else {
        joined_pieces(ps.drop_last()) + "/"@ + ps.last()
    }
}

/// The components valid pieces parse to.
pub open spec fn piece_components(ps: Seq<Seq<char>>) -> Seq<ComponentView> {
    Seq::new(ps.len(), |i: int| parse_component(ps[i])->Ok_0)
}

/// Reading characters without a slash extends the piece being read.
proof fn lemma_scan_no_slash(x: Seq<char>, q: Seq<char>)
    requires
        !q.contains('/'),
    ensures
        scan_pieces(x + q) == (scan_pieces(x).0, scan_pieces(x).1 + q),
    decreases q.len(),
{
    if q.len() == 0 {
        assert(x + q =~= x);
        assert(scan_pieces(x).1 + q =~= scan_pieces(x).1);
    } else {
        let q0 = q.drop_last();
        assert(!q0.contains('/')) by {
            if q0.contains('/') {
                let w = choose|w: int| 0 <= w < q0.len() && q0[w] == '/';
                assert(q[w] == '/');
            }
        }
        lemma_scan_no_slash(x, q0);
        assert((x + q).drop_last() =~= x + q0);
        assert((x + q).last() == q.last());
        assert(q.last() != '/') by {
            assert(q[q.len() - 1] == q.last());
        }
        assert(scan_pieces(x).1 + q =~= (scan_pieces(x).1 + q0).push(q.last()));
    }
}

/// Splitting joined valid pieces gives the pieces back.
proof fn lemma_scan_joined(ps: Seq<Seq<char>>)
    requires
        ps.len() > 0,
        forall|i: int| 0 <= i < ps.len() ==> valid_piece(#[trigger] ps[i]),
    ensures
        scan_pieces(joined_pieces(ps)) == (ps.drop_last(), ps.last()),
        pieces(joined_pieces(ps)) == ps,
    decreases ps.len(),
{
    reveal_strlit("/");
    let q = ps.last();
    assert(valid_piece(ps[ps.len() - 1]));
    if ps.len() == 1 {
        lemma_scan_no_slash(Seq::empty(), q);
        assert(Seq::<char>::empty() + q =~= q);
        assert(Seq::<char>::empty() + q =~= q);
        assert(ps.drop_last() =~= Seq::<Seq<char>>::empty());
        assert(seq![q] =~= ps);
    } else {
        let d = ps.drop_last();
        assert forall|i: int| 0 <= i < d.len() implies valid_piece(#[trigger] d[i]) by {
            assert(d[i] == ps[i]);
        }
        lemma_scan_joined(d);
        let x = joined_pieces(d);
        let xs = x + "/"@;
        assert(xs.drop_last() =~= x);
        assert(xs.last() == '/');
        assert(d.last().len() > 0) by {
            assert(valid_piece(d[d.len() - 1]));
        }
        assert(d.drop_last().push(d.last()) =~= d);
        assert(scan_pieces(xs) == (d, Seq::<char>::empty()));
        lemma_scan_no_slash(xs, q);
        assert(joined_pieces(ps) == xs + q);
        assert(Seq::<char>::empty() + q =~= q);
        assert(d.push(q) =~= ps);
    }
}

/// Parsing valid pieces gives their components.
proof fn lemma_parse_valid_pieces(ps: Seq<Seq<char>>)
    requires
        forall|i: int| 0 <= i < ps.len() ==> valid_piece(#[trigger] ps[i]),
    ensures
        parse_pieces(ps) == Ok::<Seq<ComponentView>, ErrorView>(piece_components(ps)),
    decreases ps.len(),
{
    if ps.len() > 0 {
        let d = ps.drop_last();
        assert forall|i: int| 0 <= i < d.len() implies valid_piece(#[trigger] d[i]) by {
            assert(d[i] == ps[i]);
        }
        lemma_parse_valid_pieces(d);
        assert(valid_piece(ps[ps.len() - 1]));
        assert(piece_components(d).push(parse_component(ps.last())->Ok_0) =~= piece_components(ps));
    } else {
        assert(piece_components(ps) =~= Seq::<ComponentView>::empty());
    }
}

/// A valid piece is not the root, and its component renders as the piece.
proof fn lemma_valid_piece_text(p: Seq<char>)
    requires
        valid_piece(p),
    ensures
        !(parse_component(p)->Ok_0 is Root),
        component_text(parse_component(p)->Ok_0) == p,
{
    reveal_strlit("/");
    if p == "/"@ {
        assert(p[0] == '/');
        assert(p.contains('/'));
    }
}

/// Rendering the first `k` components of valid pieces gives the first `k`
/// pieces joined; after a leading root it gives them behind a slash.
proof fn lemma_render_pieces(ps: Seq<Seq<char>>, k: nat)
    requires
        forall|i: int| 0 <= i < ps.len() ==> valid_piece(#[trigger] ps[i]),
        k <= ps.len(),
    ensures
        render_upto(piece_components(ps), k) == joined_pieces(ps.take(k as int)),
        render_upto(seq![ComponentView::Root] + piece_components(ps), k + 1) == "/"@ + joined_pieces(ps.take(k as int)),
    decreases k,
{
    reveal_strlit("/");
    let cs = piece_components(ps);
    let all = seq![ComponentView::Root] + cs;
    if k == 0 {
        assert(ps.take(0) =~= Seq::<Seq<char>>::empty());
        assert(render_upto(all, 0) == Seq::<char>::empty());
        assert(all[0] is Root);
        assert(piece_text(all, 0) == "/"@);
        assert(Seq::<char>::empty() + "/"@ =~= "/"@);
        assert("/"@ + Seq::<char>::empty() =~= "/"@);
    } else {
        lemma_render_pieces(ps, (k - 1) as nat);
        let i = k - 1;
        lemma_valid_piece_text(ps[i]);
        assert(cs[i] == parse_component(ps[i])->Ok_0);
        assert(all[i + 1] == cs[i]);
        assert(all[i] == if i == 0 { ComponentView::Root } else { cs[i - 1] });
        if i > 0 {
            lemma_valid_piece_text(ps[i - 1]);
            assert(cs[i - 1] == parse_component(ps[i - 1])->Ok_0);
        }
        let t = ps.take(k as int);
        assert(t.drop_last() =~= ps.take(i));
        assert(t.last() == ps[i]);
        if i == 0 {
            assert(t =~= seq![ps[0]]);
            assert(piece_text(cs, 0) == Seq::<char>::empty() + ps[0]);
            assert(Seq::<char>::empty() + ps[0] =~= ps[0]);
            assert(Seq::<char>::empty() + (Seq::<char>::empty() + ps[0]) =~= ps[0]);
            assert(piece_text(all, 1) == Seq::<char>::empty() + ps[0]);
            assert("/"@ + (Seq::<char>::empty() + ps[0]) =~= "/"@ + ps[0]);
        } else {
            assert(piece_text(cs, i) == "/"@ + ps[i]);
            assert(piece_text(all, i + 1) == "/"@ + ps[i]);
            assert(joined_pieces(t) == joined_pieces(ps.take(i)) + "/"@ + ps[i]);
            assert(joined_pieces(ps.take(i)) + ("/"@ + ps[i]) =~= joined_pieces(ps.take(i)) + "/"@ + ps[i]);
            assert(("/"@ + joined_pieces(ps.take(i))) + ("/"@ + ps[i]) =~= "/"@ + (joined_pieces(ps.take(i)) + "/"@ + ps[i]));
        }
    }
}

/// Parsing a path text and rendering the path gives the text back, for a
/// text made of valid pieces joined by single slashes, with or without a
/// leading slash (a lone slash included), within the depth limit.
pub proof fn lemma_parse_render_roundtrip(ps: Seq<Seq<char>>, absolute: bool)
    requires
        forall|i: int| 0 <= i < ps.len() ==> valid_piece(#[trigger] ps[i]),
        absolute || ps.len() > 0,
        ps.len() + (if absolute { 1int } else { 0int }) <= MAX_PATH_DEPTH,
    ensures
        ({
            let s = if absolute { "/"@ + joined_pieces(ps) } else { joined_pieces(ps) };
            parse_path(s) matches Ok(p) && path_text(p) == s
        }),
{
    reveal_strlit("/");
    let j = joined_pieces(ps);
    let s = if absolute { "/"@ + j } else { j };
    lemma_parse_valid_pieces(ps);
    lemma_render_pieces(ps, ps.len());
    assert(ps.take(ps.len() as int) =~= ps);
    let cs = piece_components(ps);
    if ps.len() > 0 {
        lemma_scan_joined(ps);
    } else {
        assert(j == Seq::<char>::empty());
        assert(pieces(j) =~= Seq::<Seq<char>>::empty());
    }
    if absolute {
        assert(s[0] == '/');
        assert(s.drop_first() =~= j);
        let all = seq![ComponentView::Root] + cs;
        assert(all.len() == ps.len() + 1);
        assert(parse_path(s) == Ok::<PathView, ErrorView>(PathView { components: all, absolute: true }));
    } else {
        assert(ps[0].len() > 0 && !ps[0].contains('/')) by {
            assert(valid_piece(ps[0]));
        }
        lemma_first_char_joined(ps);
        assert(s[0] != '/');
        assert(parse_path(s) == Ok::<PathView, ErrorView>(PathView { components: cs, absolute: false }));
        assert(cs.len() > 0);
    }
}

/// Joined valid pieces start with the first piece's first character.
proof fn lemma_first_char_joined(ps: Seq<Seq<char>>)
    requires
        ps.len() > 0,
        forall|i: int| 0 <= i < ps.len() ==> valid_piece(#[trigger] ps[i]),
    ensures
        joined_pieces(ps).len() > 0,
        joined_pieces(ps)[0] == ps[0][0],
    decreases ps.len(),
{
    assert(valid_piece(ps[0]));
    if ps.len() > 1 {
        let d = ps.drop_last();
        assert forall|i: int| 0 <= i < d.len() implies valid_piece(#[trigger] d[i]) by {
            assert(d[i] == ps[i]);
        }
        lemma_first_char_joined(d);
        assert(d[0] == ps[0]);
    }
}

} // verus!
