//! Normalized, nonempty, forward-slash-separated relative file paths.
use vstd::prelude::*;

verus! {

/// The path separator.
pub const SEP: char = '/';

/// `s` cut at each separator, from left to right; an empty path is one
/// empty piece.
pub open spec fn split_slash(s: Seq<char>) -> Seq<Seq<char>>
    decreases s.len(),
{
    if s.len() == 0 {
        seq![Seq::empty()]
    } else {
        let pieces = split_slash(s.drop_last());
        if s.last() == SEP {
            pieces.push(Seq::empty())
        } else {
            pieces.update(pieces.len() - 1, pieces.last().push(s.last()))
        }
    }
}

/// A piece that names something: neither empty nor `.`.
pub open spec fn is_component(piece: Seq<char>) -> bool {
    piece.len() > 0 && piece != seq!['.']
}

/// The piece `..`.
pub open spec fn is_parent(piece: Seq<char>) -> bool {
    piece == seq!['.', '.']
}

/// The pieces that name something, in order.
pub open spec fn components(pieces: Seq<Seq<char>>) -> Seq<Seq<char>>
    decreases pieces.len(),
{
    if pieces.len() == 0 {
        Seq::empty()
    } else {
        let before = components(pieces.drop_last());
        if is_component(pieces.last()) {
            before.push(pieces.last())
        } else {
            before
        }
    }
}

/// Whether one of `parts` is `..`.
pub open spec fn has_parent(parts: Seq<Seq<char>>) -> bool
    decreases parts.len(),
{
    parts.len() > 0 && (is_parent(parts.last()) || has_parent(parts.drop_last()))
}

/// `parts` joined by single separators.
pub open spec fn join(parts: Seq<Seq<char>>) -> Seq<char>
    decreases parts.len(),
{
    if parts.len() == 0 {
        Seq::empty()
    } else if parts.len() == 1 {
        parts[0]
    } else {
        join(parts.drop_last()) + seq![SEP] + parts.last()
    }
}

/// The normal form of path `s`: its components joined by single
/// separators, or why it has none.  An absolute path is refused first, then
/// one with a `..` component, then one with no component at all.
pub open spec fn normalize(s: Seq<char>) -> Result<Seq<char>, FilePathError> {
    let parts = components(split_slash(s));
    if s.len() > 0 && s[0] == SEP {
        Err(FilePathError::NotRelative)
    } else if has_parent(parts) {
        Err(FilePathError::NotNormalized)
    } else if parts.len() == 0 {
        Err(FilePathError::Empty)
    } else {
        Ok(join(parts))
    }
}

/// Error returned when trying to construct a [`FilePath`] from an invalid,
/// unnormalized, or undecodable relative path
#[derive(Copy, Clone, Debug, Hash, Eq, PartialEq, Structural)]
pub enum FilePathError {
    /// Path contains no pathnames
    Empty,
    /// Path is not normalized
    NotNormalized,
    /// Path is not relative
    NotRelative,
    /// Path is not Unicode
    Undecodable,
}

impl FilePathError {
    /// A description of the error.
    pub fn message(&self) -> (r: &'static str)
        ensures
            *self == FilePathError::Empty ==> r@ == "Path contains no pathnames"@,
            *self == FilePathError::NotNormalized ==> r@ == "Path is not normalized"@,
            *self == FilePathError::NotRelative ==> r@ == "Path is not relative"@,
            *self == FilePathError::Undecodable ==> r@ == "Path is not Unicode"@,
    {
        match self {
            FilePathError::Empty => "Path contains no pathnames",
            FilePathError::NotNormalized => "Path is not normalized",
            FilePathError::NotRelative => "Path is not relative",
            FilePathError::Undecodable => "Path is not Unicode",
        }
    }
}

/// A normalized, nonempty, forward-slash-separated, UTF-8 encoded, relative
/// file path
#[derive(Clone, Debug, Eq, Hash, PartialEq)]
pub struct FilePath(String);

impl View for FilePath {
    type V = Seq<char>;

    closed spec fn view(&self) -> Seq<char> {
        self.0@
    }
}

impl FilePath {
    /// The path as text.
    pub fn as_str(&self) -> (r: &str)
        ensures
            r@ == self@,
    {
        self.0.as_str()
    }

    /// The path as an owned string.
    pub fn to_string(&self) -> (r: String)
        ensures
            r@ == self@,
    {
        self.0.clone()
    }

    /// A copy of the path.
    pub fn duplicate(&self) -> (r: FilePath)
        ensures
            r@ == self@,
    {
        FilePath(self.0.clone())
    }

    /// Whether two paths are the same text.
    pub fn same_as(&self, other: &FilePath) -> (r: bool)
        ensures
            r == (self@ == other@),
    {
        self.0 == other.0
    }

    /// Parses `path` into its normal form.
    pub fn parse(path: &str) -> (r: Result<FilePath, FilePathError>)
        ensures
            match r {
                Ok(p) => normalize(path@) == Ok::<Seq<char>, FilePathError>(p@),
                Err(e) => normalize(path@) == Err::<Seq<char>, FilePathError>(e),
            },
    {
        let n = path.unicode_len();
        if n > 0 && path.get_char(0) == SEP {
            return Err(FilePathError::NotRelative);
        }
        let ghost s = path@;
        let mut out = String::new();
        let mut any = false;
        let mut parent = false;
        let mut start: usize = 0;
        let mut i: usize = 0;
        while i < n
            invariant
                n == s.len(),
                s == path@,
                start <= i <= n,
                split_slash(s.subrange(0, i as int)).len() >= 1,
                split_slash(s.subrange(0, i as int)).last() == s.subrange(start as int, i as int),
                out@ == join(components(split_slash(s.subrange(0, i as int)).drop_last())),
                any == (components(split_slash(s.subrange(0, i as int)).drop_last()).len() > 0),
                parent == has_parent(components(split_slash(s.subrange(0, i as int)).drop_last())),
            decreases n - i,
        {
            let ghost pieces = split_slash(s.subrange(0, i as int));
            let c = path.get_char(i);
            proof {
                assert(s.subrange(0, i + 1) =~= s.subrange(0, i as int).push(c));
                lemma_split_push(s.subrange(0, i as int), c);
            }
            if c == SEP {
                let piece = path.substring_char(start, i);
                add_piece(piece, &mut out, &mut any, &mut parent);
                proof {
                    let next = split_slash(s.subrange(0, i + 1));
                    assert(next.drop_last() =~= pieces);
                    assert(pieces =~= pieces.drop_last().push(pieces.last()));
                    assert(s.subrange(i + 1, i + 1) =~= Seq::<char>::empty());
                }
                start = i + 1;
            } else {
                proof {
                    let next = split_slash(s.subrange(0, i + 1));
                    assert(next.drop_last() =~= pieces.drop_last());
                    assert(s.subrange(start as int, i + 1) =~= s.subrange(start as int, i as int).push(c));
                }
            }
            i = i + 1;
        }
        let piece = path.substring_char(start, n);
        add_piece(piece, &mut out, &mut any, &mut parent);
        proof {
            let pieces = split_slash(s.subrange(0, n as int));
            assert(s.subrange(0, n as int) =~= s);
            assert(pieces =~= pieces.drop_last().push(pieces.last()));
        }
        if parent {
            Err(FilePathError::NotNormalized)
        } else if !any {
            Err(FilePathError::Empty)
        } else {
            proof {
                assert(normalize(path@) == Ok::<Seq<char>, FilePathError>(out@));
            }
            Ok(FilePath(out))
        }
    }
}

impl<'a> TryFrom<&'a str> for FilePath {
    type Error = FilePathError;

    fn try_from(path: &'a str) -> Result<FilePath, FilePathError> {
        FilePath::parse(path)
    }
}

// Spec code cannot build a `FilePath` from its text, so the conversion
// promises nothing through the trait; `FilePath::parse` states its result.
impl<'a> vstd::std_specs::convert::TryFromSpecImpl<&'a str> for FilePath {
    open spec fn obeys_try_from_spec() -> bool {
        false
    }

    open spec fn try_from_spec(v: &'a str) -> Result<FilePath, FilePathError> {
        Err(FilePathError::Empty)
    }
}

/// Splitting a path with one more character.
proof fn lemma_split_push(p: Seq<char>, c: char)
    ensures
        c == SEP ==> split_slash(p.push(c)) == split_slash(p).push(Seq::empty()),
        c != SEP ==> split_slash(p.push(c)) == split_slash(p).update(
            split_slash(p).len() - 1,
            split_slash(p).last().push(c),
        ),
{
    assert(p.push(c).drop_last() =~= p);
}

/// Takes one more piece of a path into the joined components.
fn add_piece(piece: &str, out: &mut String, any: &mut bool, parent: &mut bool)
    ensures
        forall|before: Seq<Seq<char>>|
            old(out)@ == join(components(before)) && *old(any) == (components(before).len() > 0)
                && *old(parent) == has_parent(components(before)) ==> {
                let after = before.push(piece@);
                &&& final(out)@ == join(components(after))
                &&& *final(any) == (components(after).len() > 0)
                &&& *final(parent) == has_parent(components(after))
            },
{
    proof {
        reveal_strlit("/");
    }
    let len = piece.unicode_len();
    let dot = len == 1 && piece.get_char(0) == '.';
    let dotdot = len == 2 && piece.get_char(0) == '.' && piece.get_char(1) == '.';
    proof {
        assert(dot == (piece@ == seq!['.'])) by {
            if piece@.len() == 1 && piece@[0] == '.' {
                assert(piece@ =~= seq!['.']);
            }
        }
        assert(dotdot == is_parent(piece@)) by {
            if piece@.len() == 2 && piece@[0] == '.' && piece@[1] == '.' {
                assert(piece@ =~= seq!['.', '.']);
            }
        }
    }
    if len > 0 && !dot {
        if *any {
            out.append("/");
        }
        out.append(piece);
        *any = true;
        if dotdot {
            *parent = true;
        }
    }
    proof {
        assert forall|before: Seq<Seq<char>>|
            old(out)@ == join(components(before)) && *old(any) == (components(before).len() > 0)
                && *old(parent) == has_parent(components(before)) implies {
                let after = before.push(piece@);
                &&& final(out)@ == join(components(after))
                &&& *final(any) == (components(after).len() > 0)
                &&& *final(parent) == has_parent(components(after))
            } by {
            let after = before.push(piece@);
            assert(after.drop_last() =~= before);
            let k = components(before);
            if is_component(piece@) {
                assert(k.push(piece@).drop_last() =~= k);
                if k.len() == 0 {
                    assert(old(out)@ =~= Seq::<char>::empty());
                    assert(final(out)@ =~= piece@);
                }
            }
        }
    }
}

} // verus!
