//! Slash-separated file paths as sequences of named parts.
//!
//! A path is modelled by [`PathModel`]: whether it starts at the root, and the
//! names between its separators. Every operation is stated over that model.

use vstd::prelude::*;

verus! {

/// Whether `text` holds no separator.
pub open spec fn separator_free(text: Seq<char>) -> bool {
    forall|i: int| 0 <= i < text.len() ==> text[i] != '/'
}

/// A name between two separators: not empty, and free of separators.
pub open spec fn valid_part(part: Seq<char>) -> bool {
    part.len() > 0 && separator_free(part)
}

/// The number of characters of `s` in front of its first separator.
pub open spec fn first_separator(s: Seq<char>) -> nat
    decreases s.len(),
{
    if s.len() == 0 || s[0] == '/' {
        0
    } else {
        1 + first_separator(s.skip(1))
    }
}

/// `first_separator` stays inside the text, stops on a separator, and passes none.
pub proof fn lemma_first_separator(s: Seq<char>)
    ensures
        first_separator(s) <= s.len(),
        first_separator(s) < s.len() ==> s[first_separator(s) as int] == '/',
        forall|i: int| 0 <= i < first_separator(s) ==> s[i] != '/',
        s.len() > 0 && s[0] != '/' ==> first_separator(s) > 0,
    decreases s.len(),
{
    if s.len() == 0 || s[0] == '/' {
    } else {
        let t = s.skip(1);
        lemma_first_separator(t);
        assert forall|i: int| 0 <= i < first_separator(s) implies s[i] != '/' by {
            if i > 0 {
                assert(s[i] == t[i - 1]);
            }
        }
        if first_separator(s) < s.len() {
            assert(s[first_separator(s) as int] == t[first_separator(t) as int]);
        }
    }
}

/// A position that stops on a separator (or the end) and passes none is the first separator.
pub proof fn lemma_first_separator_is(s: Seq<char>, n: int)
    requires
        0 <= n <= s.len(),
        n < s.len() ==> s[n] == '/',
        forall|i: int| 0 <= i < n ==> s[i] != '/',
    ensures
        first_separator(s) == n,
{
    lemma_first_separator(s);
    let m = first_separator(s) as int;
    if m < n {
        assert(s[m] == '/');
    } else if n < m {
        assert(s[n] != '/');
    }
}

/// The names of a path text, in order: its maximal runs without a separator.
pub open spec fn split_parts(s: Seq<char>) -> Seq<Seq<char>>
    decreases s.len(),
    via split_parts_decreases
{
    if s.len() == 0 {
        Seq::empty()
    } else if s[0] == '/' {
        split_parts(s.skip(1))
    } else {
        let n = first_separator(s) as int;
        seq![s.take(n)] + split_parts(s.skip(n))
    }
}

#[via_fn]
proof fn split_parts_decreases(s: Seq<char>) {
    lemma_first_separator(s);
}

/// The names joined by single separators.
pub open spec fn render_parts(parts: Seq<Seq<char>>) -> Seq<char>
    decreases parts.len(),
{
    if parts.len() == 0 {
        Seq::empty()
    } else if parts.len() == 1 {
        parts[0]
    } else {
        render_parts(parts.drop_last()) + seq!['/'] + parts.last()
    }
}

/// The position of the last dot of `name`, or -1 where it has none.
pub open spec fn last_dot(name: Seq<char>) -> int
    decreases name.len(),
{
    if name.len() == 0 {
        -1
    } else if name.last() == '.' {
        name.len() - 1
    } else {
        last_dot(name.drop_last())
    }
}

/// Whether `name` is the parent-directory name `..`.
pub open spec fn is_dot_dot(name: Seq<char>) -> bool {
    name.len() == 2 && name[0] == '.' && name[1] == '.'
}

/// The extension of a file name: what follows its last dot, unless the name
/// is `..`, has no dot, or has its only dot in front.
pub open spec fn extension_of(name: Seq<char>) -> Option<Seq<char>> {
    if is_dot_dot(name) || last_dot(name) <= 0 {
        None
    } else {
        Some(name.skip(last_dot(name) + 1))
    }
}

/// The file name without its extension.
pub open spec fn stem_of(name: Seq<char>) -> Seq<char> {
    if extension_of(name) is Some {
        name.take(last_dot(name))
    } else {
        name
    }
}

/// The file name with its extension replaced; an empty `ext` removes it.
pub open spec fn replace_extension(name: Seq<char>, ext: Seq<char>) -> Seq<char> {
    if ext.len() == 0 {
        stem_of(name)
    } else {
        stem_of(name) + seq!['.'] + ext
    }
}

/// The mathematical value of a path.
pub struct PathModel {
    /// Whether the path starts at the root.
    pub absolute: bool,
    /// The names along the path, outermost first.
    pub parts: Seq<Seq<char>>,
}

impl PathModel {
    /// Every name is a valid part.
    pub open spec fn wf(self) -> bool {
        forall|i: int| 0 <= i < self.parts.len() ==> valid_part(#[trigger] self.parts[i])
    }

    /// The model of a path text.
    pub open spec fn parse(text: Seq<char>) -> PathModel {
        PathModel { absolute: text.len() > 0 && text[0] == '/', parts: split_parts(text) }
    }

    /// The text of a path: a leading separator where it is absolute, then its names.
    pub open spec fn render(self) -> Seq<char> {
        if self.absolute {
            seq!['/'] + render_parts(self.parts)
        } else {
            render_parts(self.parts)
        }
    }

    /// The last name, unless there is none or it is `..`.
    pub open spec fn file_name(self) -> Option<Seq<char>> {
        if self.parts.len() == 0 || is_dot_dot(self.parts.last()) {
            None
        } else {
            Some(self.parts.last())
        }
    }

    /// The extension of the file name.
    pub open spec fn extension(self) -> Option<Seq<char>> {
        match self.file_name() {
            Some(name) => extension_of(name),
            None => None,
        }
    }

    /// The path with the extension of its file name replaced; unchanged where
    /// it has no file name.
    pub open spec fn with_extension(self, ext: Seq<char>) -> PathModel {
        match self.file_name() {
            Some(name) => PathModel {
                absolute: self.absolute,
                parts: self.parts.drop_last().push(replace_extension(name, ext)),
            },
            None => self,
        }
    }

    /// Whether `base` leads to this path: both start alike and the names of
    /// `base` are the first names of this path.
    pub open spec fn starts_with(self, base: PathModel) -> bool {
        &&& self.absolute == base.absolute
        &&& base.parts.len() <= self.parts.len()
        &&& self.parts.take(base.parts.len() as int) == base.parts
    }

    /// What is left of this path below `base`.
    pub open spec fn strip_prefix(self, base: PathModel) -> Option<PathModel> {
        if self.starts_with(base) {
            Some(PathModel { absolute: false, parts: self.parts.skip(base.parts.len() as int) })
        } else {
            None
        }
    }

    /// This path continued by `rel`; an absolute `rel` takes its place.
    pub open spec fn join(self, rel: PathModel) -> PathModel {
        if rel.absolute {
            rel
        } else {
            PathModel { absolute: self.absolute, parts: self.parts + rel.parts }
        }
    }

    /// The path without its last name.
    pub open spec fn parent(self) -> Option<PathModel> {
        if self.parts.len() == 0 {
            None
        } else {
            Some(PathModel { absolute: self.absolute, parts: self.parts.drop_last() })
        }
    }
}

/// The views of a list of strings.
pub open spec fn texts_of(strings: Seq<String>) -> Seq<Seq<char>> {
    Seq::new(strings.len(), |i: int| strings[i]@)
}

/// The last dot of a name extended by one character.
proof fn lemma_last_dot_push(name: Seq<char>, c: char)
    ensures
        last_dot(name.push(c)) == if c == '.' {
            name.len() as int
        } else {
            last_dot(name)
        },
{
    assert(name.push(c).drop_last() == name);
}

/// `last_dot` is -1 or the position of a dot that no dot follows.
pub proof fn lemma_last_dot(name: Seq<char>)
    ensures
        -1 <= last_dot(name) < name.len(),
        last_dot(name) >= 0 ==> name[last_dot(name)] == '.',
        forall|i: int| last_dot(name) < i < name.len() ==> name[i] != '.',
    decreases name.len(),
{
    if name.len() > 0 && name.last() != '.' {
        let front = name.drop_last();
        lemma_last_dot(front);
        assert forall|i: int| last_dot(name) < i < name.len() implies name[i] != '.' by {
            if i < front.len() {
                assert(name[i] == front[i]);
            }
        }
    }
}

/// A replaced file name is a valid part where the old name and the extension allow it.
pub proof fn lemma_replace_extension_valid(name: Seq<char>, ext: Seq<char>)
    requires
        valid_part(name),
        separator_free(ext),
    ensures
        valid_part(replace_extension(name, ext)),
{
    lemma_last_dot(name);
}

/// Whether `text` holds no separator.
pub fn is_separator_free(text: &str) -> (r: bool)
    ensures
        r == separator_free(text@),
{
    let len = text.unicode_len();
    let mut i: usize = 0;
    while i < len
        invariant
            len == text@.len(),
            i <= len,
            forall|k: int| 0 <= k < i ==> text@[k] != '/',
        decreases len - i,
    {
        if text.get_char(i) == '/' {
            return false;
        }
        i += 1;
    }
    true
}

/// The position of the last dot of `name`.
pub fn last_dot_index(name: &str) -> (r: Option<usize>)
    ensures
        match r {
            Some(d) => last_dot(name@) == d,
            None => last_dot(name@) == -1,
        },
{
    let len = name.unicode_len();
    let mut found: Option<usize> = None;
    let mut i: usize = 0;
    while i < len
        invariant
            len == name@.len(),
            i <= len,
            match found {
                Some(d) => last_dot(name@.take(i as int)) == d,
                None => last_dot(name@.take(i as int)) == -1,
            },
        decreases len - i,
    {
        let c = name.get_char(i);
        proof {
            lemma_last_dot_push(name@.take(i as int), c);
            assert(name@.take(i as int).push(c) == name@.take(i + 1));
        }
        if c == '.' {
            found = Some(i);
        }
        i += 1;
    }
    proof {
        assert(name@.take(len as int) == name@);
    }
    found
}

/// Whether `name` is the parent-directory name `..`.
pub fn is_parent_name(name: &str) -> (r: bool)
    ensures
        r == is_dot_dot(name@),
{
    name.unicode_len() == 2 && name.get_char(0) == '.' && name.get_char(1) == '.'
}

/// The extension of a file name, by the rule of [`extension_of`].
pub fn name_extension(name: &str) -> (r: Option<String>)
    ensures
        match r {
            Some(ext) => extension_of(name@) == Some(ext@),
            None => extension_of(name@) is None,
        },
{
    if is_parent_name(name) {
        return None;
    }
    proof {
        lemma_last_dot(name@);
    }
    match last_dot_index(name) {
        Some(d) => {
            if d == 0 {
                None
            } else {
                let len = name.unicode_len();
                Some(name.substring_char(d + 1, len).to_owned())
            }
        },
        None => None,
    }
}

/// The file name with its extension replaced, by the rule of [`replace_extension`].
pub fn name_with_extension(name: &str, ext: &str) -> (r: String)
    ensures
        r@ == replace_extension(name@, ext@),
{
    let len = name.unicode_len();
    proof {
        lemma_last_dot(name@);
    }
    let stem_end: usize = if is_parent_name(name) {
        len
    } else {
        match last_dot_index(name) {
            Some(d) => if d == 0 {
                len
            } else {
                d
            },
            None => len,
        }
    };
    assert(name@.take(len as int) == name@);
    let mut out = name.substring_char(0, stem_end).to_owned();
    if ext.unicode_len() > 0 {
        proof {
            reveal_strlit(".");
        }
        out.append(".");
        out.append(ext);
        assert(out@ == stem_of(name@) + seq!['.'] + ext@);
    }
    out
}

/// A copy of the names of `names` from position `from` up to `to`.
fn copy_names(names: &Vec<String>, from: usize, to: usize) -> (r: Vec<String>)
    requires
        from <= to <= names.len(),
    ensures
        texts_of(r@) == texts_of(names@).subrange(from as int, to as int),
{
    let mut out: Vec<String> = Vec::new();
    let mut i: usize = from;
    while i < to
        invariant
            from <= i <= to <= names.len(),
            texts_of(out@) == texts_of(names@).subrange(from as int, i as int),
        decreases to - i,
    {
        let ghost before = out@;
        let name = names[i].clone();
        out.push(name);
        assert(texts_of(out@) == texts_of(before).push(name@));
        i += 1;
    }
    out
}

/// A file path: whether it starts at the root, and its names.
#[derive(Debug, PartialEq, Eq)]
pub struct FilePath {
    absolute: bool,
    parts: Vec<String>,
}

impl View for FilePath {
    type V = PathModel;

    closed spec fn view(&self) -> PathModel {
        PathModel { absolute: self.absolute, parts: texts_of(self.parts@) }
    }
}

impl Clone for FilePath {
    fn clone(&self) -> (r: Self)
        ensures
            r@ == self@,
    {
        proof {
            use_type_invariant(self);
        }
        let parts = copy_names(&self.parts, 0, self.parts.len());
        assert(texts_of(self.parts@).subrange(0, self.parts@.len() as int) == texts_of(
            self.parts@,
        ));
        FilePath { absolute: self.absolute, parts }
    }
}

impl FilePath {
    #[verifier::type_invariant]
    closed spec fn inv(&self) -> bool {
        self@.wf()
    }

    /// Reads a path text: it is absolute where it starts with a separator, and
    /// its names are the runs between separators.
    pub fn parse(text: &str) -> (r: FilePath)
        ensures
            r@ == PathModel::parse(text@),
            r@.wf(),
    {
        let len = text.unicode_len();
        let absolute = len > 0 && text.get_char(0) == '/';
        let mut parts: Vec<String> = Vec::new();
        let mut i: usize = 0;
        assert(text@.skip(0) == text@);
        while i < len
            invariant
                len == text@.len(),
                i <= len,
                split_parts(text@) == texts_of(parts@) + split_parts(text@.skip(i as int)),
                forall|k: int| 0 <= k < parts@.len() ==> valid_part(#[trigger] texts_of(parts@)[k]),
            decreases len - i,
        {
            let ghost rest = text@.skip(i as int);
            if text.get_char(i) == '/' {
                assert(rest.skip(1) == text@.skip(i + 1));
                i += 1;
            } else {
                let mut j: usize = i + 1;
                while j < len && text.get_char(j) != '/'
                    invariant
                        len == text@.len(),
                        i < j <= len,
                        forall|k: int| i <= k < j ==> text@[k] != '/',
                    decreases len - j,
                {
                    j += 1;
                }
                let part = text.substring_char(i, j).to_owned();
                proof {
                    lemma_first_separator_is(rest, j - i);
                    assert(rest.take(j - i) == text@.subrange(i as int, j as int));
                    assert(rest.skip(j - i) == text@.skip(j as int));
                    assert(texts_of(parts@.push(part)) == texts_of(parts@).push(part@));
                    assert(texts_of(parts@) + (seq![part@] + split_parts(text@.skip(j as int)))
                        == texts_of(parts@).push(part@) + split_parts(text@.skip(j as int)));
                }
                parts.push(part);
                i = j;
            }
        }
        assert(texts_of(parts@) + Seq::<Seq<char>>::empty() == texts_of(parts@));
        FilePath { absolute, parts }
    }

    /// Builds a path from its names; `None` where one of them is empty or
    /// holds a separator.
    pub fn from_parts(absolute: bool, parts: Vec<String>) -> (r: Option<FilePath>)
        ensures
            match r {
                Some(p) => p@ == (PathModel { absolute, parts: texts_of(parts@) }) && p@.wf(),
                None => !(PathModel { absolute, parts: texts_of(parts@) }).wf(),
            },
    {
        let mut i: usize = 0;
        while i < parts.len()
            invariant
                i <= parts.len(),
                forall|k: int| 0 <= k < i ==> valid_part(#[trigger] texts_of(parts@)[k]),
            decreases parts.len() - i,
        {
            let part = parts[i].as_str();
            if part.unicode_len() == 0 || !is_separator_free(part) {
                proof {
                    let model = PathModel { absolute, parts: texts_of(parts@) };
                    assert(!valid_part(model.parts[i as int]));
                }
                return None;
            }
            i += 1;
        }
        Some(FilePath { absolute, parts })
    }

    /// Whether the path starts at the root.
    pub fn is_absolute(&self) -> (r: bool)
        ensures
            r == self@.absolute,
    {
        self.absolute
    }

    /// The number of names along the path.
    pub fn depth(&self) -> (r: usize)
        ensures
            r == self@.parts.len(),
    {
        self.parts.len()
    }

    /// The name at position `index`, outermost first.
    pub fn part(&self, index: usize) -> (r: Option<String>)
        ensures
            match r {
                Some(name) => index < self@.parts.len() && name@ == self@.parts[index as int],
                None => index >= self@.parts.len(),
            },
    {
        if index < self.parts.len() {
            Some(self.parts[index].clone())
        } else {
            None
        }
    }

    /// Writes the path as text.
    pub fn to_string(&self) -> (r: String)
        ensures
            r@ == self@.render(),
    {
        proof {
            reveal_strlit("/");
        }
        let mut out = String::new();
        if self.absolute {
            out.append("/");
        }
        let ghost head = out@;
        let mut i: usize = 0;
        assert(head + Seq::<char>::empty() == head);
        while i < self.parts.len()
            invariant
                i <= self.parts.len(),
                "/"@ == seq!['/'],
                out@ == head + render_parts(texts_of(self.parts@).take(i as int)),
            decreases self.parts.len() - i,
        {
            let ghost before = texts_of(self.parts@).take(i as int);
            let ghost after = texts_of(self.parts@).take(i + 1);
            assert(after.drop_last() == before);
            assert(after.last() == self.parts@[i as int]@);
            if i > 0 {
                out.append("/");
            }
            out.append(self.parts[i].as_str());
            proof {
                if i > 0 {
                    assert(out@ == head + (render_parts(before) + seq!['/'] + after.last()));
                } else {
                    assert(render_parts(before) == Seq::<char>::empty());
                    assert(out@ == head + after[0]);
                }
            }
            i += 1;
        }
        assert(texts_of(self.parts@).take(i as int) == texts_of(self.parts@));
        assert(Seq::<char>::empty() + render_parts(self@.parts) == render_parts(self@.parts));
        out
    }

    /// The last name, unless there is none or it is `..`.
    pub fn file_name(&self) -> (r: Option<String>)
        ensures
            match r {
                Some(name) => self@.file_name() == Some(name@),
                None => self@.file_name() is None,
            },
    {
        let n = self.parts.len();
        if n == 0 || is_parent_name(self.parts[n - 1].as_str()) {
            None
        } else {
            Some(self.parts[n - 1].clone())
        }
    }

    /// The extension of the file name.
    pub fn extension(&self) -> (r: Option<String>)
        ensures
            match r {
                Some(ext) => self@.extension() == Some(ext@),
                None => self@.extension() is None,
            },
    {
        let n = self.parts.len();
        if n == 0 || is_parent_name(self.parts[n - 1].as_str()) {
            None
        } else {
            name_extension(self.parts[n - 1].as_str())
        }
    }

    /// The path with the extension of its file name replaced by `ext`; an
    /// empty `ext` removes the extension. `None` where `ext` holds a separator.
    pub fn with_extension(&self, ext: &str) -> (r: Option<FilePath>)
        ensures
            match r {
                Some(p) => separator_free(ext@) && p@ == self@.with_extension(ext@) && p@.wf(),
                None => !separator_free(ext@),
            },
    {
        if !is_separator_free(ext) {
            return None;
        }
        proof {
            use_type_invariant(self);
        }
        let n = self.parts.len();
        if n == 0 || is_parent_name(self.parts[n - 1].as_str()) {
            return Some(self.clone());
        }
        let mut parts = copy_names(&self.parts, 0, n - 1);
        let name = name_with_extension(self.parts[n - 1].as_str(), ext);
        proof {
            lemma_replace_extension_valid(self@.parts[n - 1], ext@);
            assert(texts_of(parts@.push(name)) == self@.parts.drop_last().push(name@));
        }
        parts.push(name);
        Some(FilePath { absolute: self.absolute, parts })
    }

    /// Whether `base` leads to this path.
    pub fn starts_with(&self, base: &FilePath) -> (r: bool)
        ensures
            r == self@.starts_with(base@),
    {
        if self.absolute != base.absolute || base.parts.len() > self.parts.len() {
            return false;
        }
        let n = base.parts.len();
        let mut i: usize = 0;
        while i < n
            invariant
                i <= n,
                n == base.parts.len(),
                n <= self.parts.len(),
                forall|k: int| 0 <= k < i ==> self.parts@[k]@ == base.parts@[k]@,
            decreases n - i,
        {
            if self.parts[i] != base.parts[i] {
                assert(self@.parts.take(n as int)[i as int] != base@.parts[i as int]);
                return false;
            }
            i += 1;
        }
        assert(self@.parts.take(n as int) == base@.parts);
        true
    }

    /// What is left of this path below `base`: `None` unless `base` leads to
    /// this path; the rest is a relative path.
    pub fn strip_prefix(&self, base: &FilePath) -> (r: Option<FilePath>)
        ensures
            match r {
                Some(p) => self@.strip_prefix(base@) == Some(p@) && p@.wf(),
                None => self@.strip_prefix(base@) is None,
            },
    {
        if !self.starts_with(base) {
            return None;
        }
        proof {
            use_type_invariant(self);
        }
        let n = base.parts.len();
        let parts = copy_names(&self.parts, n, self.parts.len());
        Some(FilePath { absolute: false, parts })
    }

    /// This path continued by `rel`; an absolute `rel` takes its place.
    pub fn join(&self, rel: &FilePath) -> (r: FilePath)
        ensures
            r@ == self@.join(rel@),
            r@.wf(),
    {
        if rel.absolute {
            proof {
                use_type_invariant(rel);
            }
            return rel.clone();
        }
        proof {
            use_type_invariant(self);
            use_type_invariant(rel);
        }
        let mut parts = copy_names(&self.parts, 0, self.parts.len());
        let mut tail = copy_names(&rel.parts, 0, rel.parts.len());
        let ghost head = parts@;
        let ghost rest = tail@;
        parts.append(&mut tail);
        assert(texts_of(head) == self@.parts) by {
            assert(self@.parts.subrange(0, self@.parts.len() as int) == self@.parts);
        }
        assert(texts_of(rest) == rel@.parts) by {
            assert(rel@.parts.subrange(0, rel@.parts.len() as int) == rel@.parts);
        }
        assert(texts_of(head + rest) == texts_of(head) + texts_of(rest));
        FilePath { absolute: self.absolute, parts }
    }

    /// The path without its last name; `None` where it has no name.
    pub fn parent(&self) -> (r: Option<FilePath>)
        ensures
            match r {
                Some(p) => self@.parent() == Some(p@) && p@.wf(),
                None => self@.parent() is None,
            },
    {
        if self.parts.len() == 0 {
            return None;
        }
        proof {
            use_type_invariant(self);
        }
        let parts = copy_names(&self.parts, 0, self.parts.len() - 1);
        Some(FilePath { absolute: self.absolute, parts })
    }

    /// Whether two paths have the same value.
    pub fn same_as(&self, other: &FilePath) -> (r: bool)
        ensures
            r == (self@ == other@),
    {
        if self.parts.len() != other.parts.len() {
            return false;
        }
        let same = self.starts_with(other);
        proof {
            assert(self@.parts.take(self@.parts.len() as int) == self@.parts);
        }
        same
    }
}

/// A relative path joined below a base is found again by stripping the base.
pub proof fn lemma_join_then_strip(base: PathModel, rel: PathModel)
    requires
        !rel.absolute,
    ensures
        base.join(rel).strip_prefix(base) == Some(rel),
{
    let joined = base.join(rel);
    assert(joined.parts.take(base.parts.len() as int) == base.parts);
    assert(joined.parts.skip(base.parts.len() as int) == rel.parts);
}

/// What is left below a base, joined to the base again, is the path itself.
pub proof fn lemma_strip_then_join(path: PathModel, base: PathModel)
    requires
        path.starts_with(base),
    ensures
        base.join(path.strip_prefix(base)->0) == path,
{
    let n = base.parts.len() as int;
    assert(path.parts.take(n) + path.parts.skip(n) == path.parts);
}

/// The last dot of a stem followed by a dot and a dot-free extension is that dot.
proof fn lemma_last_dot_append(stem: Seq<char>, ext: Seq<char>)
    requires
        forall|i: int| 0 <= i < ext.len() ==> ext[i] != '.',
    ensures
        last_dot(stem + seq!['.'] + ext) == stem.len(),
    decreases ext.len(),
{
    let whole = stem + seq!['.'] + ext;
    if ext.len() == 0 {
        assert(whole.last() == '.');
    } else {
        assert(whole.last() == ext.last());
        assert(whole.drop_last() == stem + seq!['.'] + ext.drop_last());
        lemma_last_dot_append(stem, ext.drop_last());
    }
}

/// A path with a file name has, after its extension was replaced by a
/// non-empty extension without a dot, exactly that extension.
pub proof fn lemma_with_extension_sets_extension(path: PathModel, ext: Seq<char>)
    requires
        path.wf(),
        path.file_name() is Some,
        ext.len() > 0,
        forall|i: int| 0 <= i < ext.len() ==> ext[i] != '.',
    ensures
        path.with_extension(ext).extension() == Some(ext),
{
    let name = path.parts.last();
    let stem = stem_of(name);
    let renamed = replace_extension(name, ext);
    lemma_last_dot(name);
    lemma_last_dot_append(stem, ext);
    assert(stem.len() > 0);
    assert(renamed.skip(stem.len() as int + 1) == ext);
    assert(path.with_extension(ext).parts.last() == renamed);
}

/// Replacing the extension keeps the directory of the file and its depth.
pub proof fn lemma_with_extension_keeps_parent(path: PathModel, ext: Seq<char>)
    ensures
        path.with_extension(ext).parent() == path.parent(),
        path.with_extension(ext).parts.len() == path.parts.len(),
        path.with_extension(ext).absolute == path.absolute,
{
    if path.file_name() is Some {
        let renamed = replace_extension(path.parts.last(), ext);
        assert(path.parts.drop_last().push(renamed).drop_last() == path.parts.drop_last());
    }
}

/// A valid part is the one name of its own text.
proof fn lemma_split_valid_part(part: Seq<char>)
    requires
        valid_part(part),
    ensures
        split_parts(part) == seq![part],
{
    lemma_first_separator_is(part, part.len() as int);
    assert(part.take(part.len() as int) == part);
    assert(split_parts(part.skip(part.len() as int)) == Seq::<Seq<char>>::empty());
    assert(seq![part] + Seq::<Seq<char>>::empty() == seq![part]);
}

/// The names of two texts with a separator between them are the names of
/// the first followed by the names of the second.
pub proof fn lemma_split_around_separator(a: Seq<char>, b: Seq<char>)
    ensures
        split_parts(a + seq!['/'] + b) == split_parts(a) + split_parts(b),
    decreases a.len(),
{
    let whole = a + seq!['/'] + b;
    if a.len() == 0 {
        assert(whole.skip(1) == b);
        assert(split_parts(a) + split_parts(b) == split_parts(b));
    } else if a[0] == '/' {
        assert(whole.skip(1) == a.skip(1) + seq!['/'] + b);
        lemma_split_around_separator(a.skip(1), b);
    } else {
        lemma_first_separator(a);
        let n = first_separator(a) as int;
        assert forall|i: int| 0 <= i < n implies whole[i] != '/' by {
            assert(whole[i] == a[i]);
        }
        assert(whole[n] == '/') by {
            if n < a.len() {
                assert(whole[n] == a[n]);
            }
        }
        lemma_first_separator_is(whole, n);
        assert(whole.take(n) == a.take(n));
        assert(whole.skip(n) == a.skip(n) + seq!['/'] + b);
        lemma_split_around_separator(a.skip(n), b);
        assert(seq![a.take(n)] + (split_parts(a.skip(n)) + split_parts(b)) == (seq![a.take(n)]
            + split_parts(a.skip(n))) + split_parts(b));
    }
}

/// Valid parts, written with separators between them, are read back as they were.
pub proof fn lemma_split_render_parts(parts: Seq<Seq<char>>)
    requires
        forall|i: int| 0 <= i < parts.len() ==> valid_part(#[trigger] parts[i]),
    ensures
        split_parts(render_parts(parts)) == parts,
    decreases parts.len(),
{
    if parts.len() == 0 {
    } else if parts.len() == 1 {
        lemma_split_valid_part(parts[0]);
    } else {
        let front = parts.drop_last();
        assert forall|i: int| 0 <= i < front.len() implies valid_part(#[trigger] front[i]) by {
            assert(front[i] == parts[i]);
        }
        lemma_split_render_parts(front);
        lemma_split_around_separator(render_parts(front), parts.last());
        lemma_split_valid_part(parts.last());
        assert(front + seq![parts.last()] == parts);
    }
}

/// The text of a relative path with valid parts does not start with a separator.
proof fn lemma_render_parts_start(parts: Seq<Seq<char>>)
    requires
        forall|i: int| 0 <= i < parts.len() ==> valid_part(#[trigger] parts[i]),
    ensures
        render_parts(parts).len() > 0 ==> render_parts(parts)[0] != '/',
        parts.len() > 0 ==> render_parts(parts).len() > 0,
    decreases parts.len(),
{
    if parts.len() == 1 {
        assert(valid_part(parts[0]));
    } else if parts.len() > 1 {
        let front = parts.drop_last();
        assert forall|i: int| 0 <= i < front.len() implies valid_part(#[trigger] front[i]) by {
            assert(front[i] == parts[i]);
        }
        lemma_render_parts_start(front);
    }
}

/// Writing a well-formed path and reading the text gives the path back.
pub proof fn lemma_parse_render(path: PathModel)
    requires
        path.wf(),
    ensures
        PathModel::parse(path.render()) == path,
{
    lemma_split_render_parts(path.parts);
    lemma_render_parts_start(path.parts);
    if path.absolute {
        assert(path.render().skip(1) == render_parts(path.parts));
    }
}

} // verus!
