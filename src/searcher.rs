//! The search configuration and the decisions made while scanning a tree.

use vstd::prelude::*;
use vstd::string::StringSliceAdditionalSpecFns;
use vstd::utf8::is_char_boundary;
use crate::pattern::{Pattern, regex_compiles, regex_find, regex_is_match, compile, concat_str, find_first, is_match};

verus! {

/// The source compiled for a content pattern: case-insensitive, the user's
/// pattern as one group, `(?i)(<pattern>)`.
pub open spec fn content_source(pattern: Seq<char>) -> Seq<char> {
    seq!['(', '?', 'i', ')', '('] + pattern + seq![')']
}

/// The source compiled for a filename pattern: case-insensitive, `(?i)<pattern>`.
pub open spec fn name_source(pattern: Seq<char>) -> Seq<char> {
    seq!['(', '?', 'i', ')'] + pattern
}

/// The text of each line, in order.
pub open spec fn texts(lines: Seq<&str>) -> Seq<Seq<char>> {
    lines.map_values(|l: &str| l@)
}

/// A pattern the regex engine refused, with the engine's error.
pub enum PatternError {
    /// The content pattern does not compile.
    Content(regex::Error),
    /// The filename pattern does not compile.
    FileName(regex::Error),
}

/// What to do with one directory entry.
#[derive(PartialEq, Eq, Structural, Clone, Copy, Debug)]
pub enum EntryAction {
    /// Walk into it.
    Descend,
    /// Scan its lines.
    Scan,
    /// Leave it alone.
    Skip,
}

/// The first match on a line: its 1-based number and the byte span of the match.
#[derive(PartialEq, Eq, Structural, Clone, Copy, Debug)]
pub struct LineMatch {
    pub line_number: usize,
    pub start: usize,
    pub end: usize,
}

/// The immutable configuration shared by every part of one scan.
pub struct Searcher {
    content: Pattern,
    names: Pattern,
    colored: bool,
}

impl Searcher {
    /// The source of the compiled content pattern.
    pub closed spec fn content_spec(&self) -> Seq<char> {
        self.content@
    }

    /// The source of the compiled filename pattern.
    pub closed spec fn names_spec(&self) -> Seq<char> {
        self.names@
    }

    /// Whether matches are rendered in color.
    pub closed spec fn colored_spec(&self) -> bool {
        self.colored
    }

    /// Where `line` has its first content match, if anywhere.
    pub open spec fn hit(&self, line: Seq<char>) -> Option<(usize, usize)> {
        regex_find(self.content_spec(), line)
    }

    /// Every line at index `from` or later that has a content match, in
    /// order, each with its 1-based number and the span of its first match.
    pub open spec fn matches_from(&self, lines: Seq<Seq<char>>, from: int) -> Seq<LineMatch>
        decreases lines.len() - from,
    {
        if from < 0 || from >= lines.len() {
            seq![]
        } else {
            let rest = self.matches_from(lines, from + 1);
            match self.hit(lines[from]) {
                Some((start, end)) => seq![
                    LineMatch { line_number: (from + 1) as usize, start, end },
                ] + rest,
                None => rest,
            }
        }
    }

    /// The line numbers reported for a file of `N` lines lie in `1..=N`,
    /// strictly increase, each names a line that matches, with that line's
    /// first match, and no matching line is left out.
    pub proof fn lemma_matches_in_line_order(&self, lines: Seq<Seq<char>>, from: int)
        requires
            0 <= from,
            lines.len() <= usize::MAX,
        ensures
            forall|k: int|
                0 <= k < self.matches_from(lines, from).len() ==> {
                    let m = #[trigger] self.matches_from(lines, from)[k];
                    &&& from < m.line_number <= lines.len()
                    &&& self.hit(lines[m.line_number - 1]) == Some((m.start, m.end))
                },
            forall|k: int, k2: int|
                0 <= k < k2 < self.matches_from(lines, from).len() ==> (#[trigger] self.matches_from(
                    lines,
                    from,
                )[k]).line_number < (#[trigger] self.matches_from(lines, from)[k2]).line_number,
            forall|i: int|
                from <= i < lines.len() && (#[trigger] self.hit(lines[i])) is Some ==> exists|k: int|
                    0 <= k < self.matches_from(lines, from).len() && (#[trigger] self.matches_from(
                        lines,
                        from,
                    )[k]).line_number == i + 1,
        decreases lines.len() - from,
    {
        if from < lines.len() {
            self.lemma_matches_in_line_order(lines, from + 1);
            let rest = self.matches_from(lines, from + 1);
            let all = self.matches_from(lines, from);
            match self.hit(lines[from]) {
                Some((start, end)) => {
                    assert forall|i: int|
                        from <= i < lines.len() && (#[trigger] self.hit(lines[i])) is Some implies exists|k: int|
                            0 <= k < all.len() && (#[trigger] all[k]).line_number == i + 1 by {
                        if i == from {
                            assert(all[0].line_number == i + 1);
                        } else {
                            let k0 = choose|k: int| 0 <= k < rest.len() && (#[trigger] rest[k]).line_number == i + 1;
                            assert(all[k0 + 1] == rest[k0]);
                        }
                    }
                },
                None => {},
            }
        }
    }

    /// Compiles both patterns case-insensitively; the content pattern is
    /// compiled first, so its error is the one reported when both fail.
    pub fn new(regex: &str, file_filter: &str, colored: bool) -> (r: Result<Searcher, PatternError>)
        ensures
            r is Ok <==> regex_compiles(content_source(regex@)) && regex_compiles(
                name_source(file_filter@),
            ),
            r is Err && r->Err_0 is Content <==> !regex_compiles(content_source(regex@)),
            r is Err && r->Err_0 is FileName <==> regex_compiles(content_source(regex@))
                && !regex_compiles(name_source(file_filter@)),
            r matches Ok(s) ==> s.content_spec() == content_source(regex@) && s.names_spec()
                == name_source(file_filter@) && s.colored_spec() == colored,
    {
        let open: String = concat_str("(?i)(", regex);
        let content_src: String = concat_str(open.as_str(), ")");
        let names_src: String = concat_str("(?i)", file_filter);
        proof {
            reveal_strlit("(?i)(");
            reveal_strlit(")");
            reveal_strlit("(?i)");
            assert(content_src@ =~= content_source(regex@));
            assert(names_src@ =~= name_source(file_filter@));
        }
        let content = match compile(content_src) {
            Ok(p) => p,
            Err(e) => {
                return Err(PatternError::Content(e));
            },
        };
        let names = match compile(names_src) {
            Ok(p) => p,
            Err(e) => {
                return Err(PatternError::FileName(e));
            },
        };
        Ok(Searcher { content, names, colored })
    }

    /// Whether matches are rendered in color.
    pub fn colored(&self) -> (r: bool)
        ensures
            r == self.colored_spec(),
    {
        self.colored
    }

    /// Whether a bare filename passes the filename pattern.
    pub fn name_matches(&self, file_name: &str) -> (r: bool)
        ensures
            r == regex_is_match(self.names_spec(), file_name@),
    {
        is_match(&self.names, file_name)
    }

    /// The byte span of the first content match on `line`, if any.
    pub fn first_match(&self, line: &str) -> (r: Option<(usize, usize)>)
        ensures
            r == self.hit(line@),
            r matches Some((s, e)) ==> s <= e <= line.spec_bytes().len()
                && is_char_boundary(line.spec_bytes(), s as int)
                && is_char_boundary(line.spec_bytes(), e as int),
    {
        find_first(&self.content, line)
    }

    /// What to do with a directory entry: walk into directories, scan files
    /// whose name passes the filename pattern, skip the rest (including
    /// files whose name is not text).
    pub fn entry_action(&self, is_dir: bool, file_name: Option<&str>) -> (r: EntryAction)
        ensures
            r == (if is_dir {
                EntryAction::Descend
            } else if file_name is Some && regex_is_match(self.names_spec(), file_name->0@) {
                EntryAction::Scan
            } else {
                EntryAction::Skip
            }),
    {
        if is_dir {
            EntryAction::Descend
        } else {
            match file_name {
                Some(name) => if self.name_matches(name) {
                    EntryAction::Scan
                } else {
                    EntryAction::Skip
                },
                None => EntryAction::Skip,
            }
        }
    }

    /// The first line at index `from` or later that has a content match,
    /// numbered from 1, with the span of its first match. Lines before it
    /// are passed over without a match; `None` when no line is left that
    /// matches.
    pub fn next_match(&self, lines: &Vec<&str>, from: usize) -> (r: Option<LineMatch>)
        ensures
            r == (if self.matches_from(texts(lines@), from as int).len() == 0 {
                None
            } else {
                Some(self.matches_from(texts(lines@), from as int)[0])
            }),
            r is None ==> forall|i: int| from <= i < lines@.len() ==> #[trigger] self.hit(
                lines@[i]@,
            ) is None,
            r matches Some(m) ==> {
                &&& from < m.line_number <= lines@.len()
                &&& self.hit(lines@[m.line_number - 1]@) == Some((m.start, m.end))
                &&& m.start <= m.end <= lines@[m.line_number - 1].spec_bytes().len()
                &&& forall|i: int| from <= i < m.line_number - 1 ==> #[trigger] self.hit(
                    lines@[i]@,
                ) is None
            },
    {
        let mut i: usize = from;
        while i < lines.len()
            invariant
                from <= i || lines@.len() <= i,
                forall|j: int| from <= j < i && j < lines@.len() ==> #[trigger] self.hit(
                    lines@[j]@,
                ) is None,
                self.matches_from(texts(lines@), from as int) == self.matches_from(
                    texts(lines@),
                    i as int,
                ),
            decreases lines@.len() - i,
        {
            let found = self.first_match(lines[i]);
            assert(texts(lines@)[i as int] == lines@[i as int]@);
            match found {
                Some((start, end)) => {
                    return Some(LineMatch { line_number: i + 1, start, end });
                },
                None => {},
            }
            i = i + 1;
        }
        None
    }

    /// Compiling the same patterns twice gives searchers that accept the
    /// same filenames and find the same matches on every line.
    pub proof fn lemma_compile_deterministic(
        a: &Searcher,
        b: &Searcher,
        regex: Seq<char>,
        file_filter: Seq<char>,
        line: Seq<char>,
        file_name: Seq<char>,
    )
        requires
            a.content_spec() == content_source(regex),
            b.content_spec() == content_source(regex),
            a.names_spec() == name_source(file_filter),
            b.names_spec() == name_source(file_filter),
        ensures
            a.hit(line) == b.hit(line),
            regex_is_match(a.names_spec(), file_name) == regex_is_match(b.names_spec(), file_name),
    {
    }
}

} // verus!
