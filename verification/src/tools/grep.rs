//! Searching files for a regular expression.

use vstd::prelude::*;

use crate::text::{
    byte_len, bytes_in, chars_of, decimal, lemma_encode_concat, line_texts, push_decimal, same,
    split_lines, texts,
};

verus! {

pub const MAX_GREP_BYTES: usize = 64_000;

/// `regex::Regex` is a compiled regular expression.
#[verifier::external_type_specification]
#[verifier::external_body]
pub struct ExRegex(regex::Regex);

/// What `regex::Regex::new` finds wrong with a pattern.
pub uninterp spec fn regex_fault(pattern: Seq<char>) -> Option<Seq<char>>;

/// Whether a pattern matches somewhere in a text, as `regex::Regex::is_match` has it.
pub uninterp spec fn regex_matches(pattern: Seq<char>, text: Seq<char>) -> bool;

/// The patterns that a `regex::Regex` is the compiled form of.
pub uninterp spec fn regex_patterns(regex: regex::Regex) -> Set<Seq<char>>;

/// `regex::Regex::new` compiles a pattern, or says what is wrong with it; which, depends on the
/// pattern alone.
#[verifier::external_body]
pub(crate) fn compile(pattern: &str) -> (out: Result<regex::Regex, String>)
    ensures
        match out {
            Ok(regex) => regex_fault(pattern@) is None && regex_patterns(regex).contains(pattern@),
            Err(fault) => regex_fault(pattern@) == Some(fault@),
        },
{
    match regex::Regex::new(pattern) {
        Ok(regex) => Ok(regex),
        Err(fault) => Err(fault.to_string()),
    }
}

/// `regex::Regex::is_match`: the result depends on the pattern and the text alone.
#[verifier::external_body]
fn is_match(regex: &regex::Regex, text: &str) -> (yes: bool)
    ensures
        forall|pattern: Seq<char>| #[trigger]
            regex_patterns(*regex).contains(pattern) ==> yes == regex_matches(pattern, text@),
{
    regex.is_match(text)
}

/// How far a search has come.
#[derive(Debug)]
pub struct GrepState {
    pub content: String,
    pub match_count: u64,
    pub was_truncated: bool,
}

/// The mathematical content of a [`GrepState`].
#[verifier::ext_equal]
pub struct GrepView {
    pub content: Seq<char>,
    pub match_count: u64,
    pub was_truncated: bool,
}

impl View for GrepState {
    type V = GrepView;

    open spec fn view(&self) -> GrepView {
        GrepView {
            content: self.content@,
            match_count: self.match_count,
            was_truncated: self.was_truncated,
        }
    }
}

/// Whether a directory is searched: not where versions, dependencies or build results are kept.
pub open spec fn is_searched(name: Seq<char>) -> bool {
    !(name == ".git"@ || name == "node_modules"@ || name == "target"@ || name == ".venv"@ || name
        == "venv"@)
}

/// Whether an entry is visited; `name` is its name where that is text.
pub fn should_visit_grep_entry(is_dir: bool, name: Option<&str>) -> (yes: bool)
    ensures
        yes == (!is_dir || match name {
            Some(name) => is_searched(name@),
            None => true,
        }),
{
    if !is_dir {
        return true;
    }
    match name {
        Some(name) => !(same(name, ".git") || same(name, "node_modules") || same(name, "target")
            || same(name, ".venv") || same(name, "venv")),
        None => true,
    }
}

pub open spec fn without_returns(s: Seq<char>) -> Seq<char>
    decreases s.len(),
{
    if s.len() > 0 && s.last() == '\r' {
        without_returns(s.drop_last())
    } else {
        s
    }
}

fn trim_returns(s: &str) -> (out: &str)
    ensures
        out@ == without_returns(s@),
{
    let chars = chars_of(s);
    let mut end: usize = chars.len();
    assert(s@.take(end as int) =~= s@);
    while end > 0 && chars[end - 1] == '\r'
        invariant
            end <= chars.len(),
            chars@ == s@,
            without_returns(s@) == without_returns(s@.take(end as int)),
        decreases end,
    {
        assert(s@.take(end as int).drop_last() =~= s@.take(end - 1));
        end -= 1;
    }
    let out = s.substring_char(0, end);
    assert(out@ =~= s@.take(end as int));
    out
}

/// A match as it is shown: file, line number, line.
pub open spec fn shown_match(path: Seq<char>, line_no: nat, line: Seq<char>) -> Seq<char> {
    path + ":"@ + decimal(line_no) + ":"@ + without_returns(line) + "\n"@
}

impl GrepView {
    pub open spec fn start() -> GrepView {
        GrepView { content: seq![], match_count: 0, was_truncated: false }
    }

    /// The search after a line that matches. Once it is truncated, nothing is added; a match is
    /// added if it still fits, and the last one that is wanted ends the search.
    pub open spec fn with_match(
        self,
        path: Seq<char>,
        line_no: nat,
        line: Seq<char>,
        max_matches: u64,
    ) -> GrepView {
        let shown = shown_match(path, line_no, line);
        if self.was_truncated {
            self
        } else if bytes_in(self.content) + bytes_in(shown) > MAX_GREP_BYTES {
            GrepView { was_truncated: true, ..self }
        } else {
            GrepView {
                content: self.content + shown,
                match_count: (self.match_count + 1) as u64,
                was_truncated: self.match_count + 1 >= max_matches,
            }
        }
    }

    /// The search after a line.
    pub open spec fn after_line(
        self,
        pattern: Seq<char>,
        path: Seq<char>,
        line_no: nat,
        line: Seq<char>,
        max_matches: u64,
    ) -> GrepView {
        if regex_matches(pattern, line) {
            self.with_match(path, line_no, line, max_matches)
        } else {
            self
        }
    }

    /// The search after the first lines of a file.
    pub open spec fn after_lines(
        self,
        pattern: Seq<char>,
        path: Seq<char>,
        lines: Seq<Seq<char>>,
        max_matches: u64,
    ) -> GrepView
        decreases lines.len(),
    {
        if lines.len() == 0 {
            self
        } else {
            self.after_lines(pattern, path, lines.drop_last(), max_matches).after_line(
                pattern,
                path,
                lines.len(),
                lines.last(),
                max_matches,
            )
        }
    }

    /// What is shown in the end.
    pub open spec fn report(self) -> Seq<char> {
        if self.match_count == 0 {
            self.content + "No matches.\n"@
        } else if self.was_truncated {
            self.content + "Search results truncated.\n"@
        } else {
            self.content
        }
    }

    /// What is kept is bounded.
    pub open spec fn bounded(self, max_matches: u64) -> bool {
        &&& bytes_in(self.content) <= MAX_GREP_BYTES
        &&& self.match_count <= max_matches
        &&& self.match_count == max_matches ==> self.was_truncated
    }
}

/// A search never keeps more than its bounds allow.
pub proof fn law_search_is_bounded(
    search: GrepView,
    pattern: Seq<char>,
    path: Seq<char>,
    lines: Seq<Seq<char>>,
    max_matches: u64,
)
    requires
        search.bounded(max_matches),
    ensures
        search.after_lines(pattern, path, lines, max_matches).bounded(max_matches),
    decreases lines.len(),
{
    if lines.len() > 0 {
        law_search_is_bounded(search, pattern, path, lines.drop_last(), max_matches);
        let before = search.after_lines(pattern, path, lines.drop_last(), max_matches);
        lemma_encode_concat(
            before.content,
            shown_match(path, lines.len(), lines.last()),
        );
    }
}

impl GrepState {
    /// A search that has found nothing yet.
    pub fn new() -> (state: Self)
        ensures
            state@ == GrepView::start(),
    {
        GrepState { content: String::new(), match_count: 0, was_truncated: false }
    }

    /// Adds a line that matches.
    pub fn add_match(&mut self, path: &str, line_no: usize, line: &str, max_matches: u64)
        requires
            old(self)@.bounded(max_matches),
        ensures
            final(self)@ == old(self)@.with_match(path@, line_no as nat, line@, max_matches),
            final(self)@.bounded(max_matches),
    {
        if self.was_truncated {
            return;
        }
        let mut shown = path.to_owned();
        shown.append(":");
        push_decimal(&mut shown, line_no as u64);
        shown.append(":");
        shown.append(trim_returns(line));
        shown.append("\n");
        assert(shown@ =~= shown_match(path@, line_no as nat, line@));
        if byte_len(shown.as_str()) > MAX_GREP_BYTES - byte_len(self.content.as_str()) {
            self.was_truncated = true;
            return;
        }
        proof {
            lemma_encode_concat(self.content@, shown@);
        }
        self.content.append(shown.as_str());
        self.match_count = self.match_count + 1;
        self.was_truncated = self.match_count >= max_matches;
    }

    /// Looks through one file. `path` is the file's path as it is shown.
    fn scan_with(
        &mut self,
        regex: &regex::Regex,
        path: &str,
        content: &str,
        max_matches: u64,
        Ghost(pattern): Ghost<Seq<char>>,
    )
        requires
            old(self)@.bounded(max_matches),
            regex_patterns(*regex).contains(pattern),
        ensures
            final(self)@ == old(self)@.after_lines(
                pattern,
                path@,
                line_texts(content@),
                max_matches,
            ),
            final(self)@.bounded(max_matches),
    {
        let ghost before = self@;
        let lines = split_lines(content);
        let ghost all = texts(lines@);
        let mut i: usize = 0;
        assert(all.take(0) =~= Seq::empty());
        while i < lines.len()
            invariant
                i <= lines.len(),
                all == texts(lines@),
                before.bounded(max_matches),
                regex_patterns(*regex).contains(pattern),
                self@ == before.after_lines(pattern, path@, all.take(i as int), max_matches),
            decreases lines.len() - i,
        {
            proof {
                law_search_is_bounded(before, pattern, path@, all.take(i as int), max_matches);
            }
            assert(all.take(i + 1).drop_last() =~= all.take(i as int));
            if is_match(regex, lines[i].as_str()) {
                self.add_match(path, i + 1, lines[i].as_str(), max_matches);
            }
            i += 1;
        }
        assert(all.take(all.len() as int) =~= all);
        proof {
            law_search_is_bounded(before, pattern, path@, all, max_matches);
        }
    }

    /// Looks through one file for a pattern; nothing where the pattern is no regular expression.
    /// `path` is the file's path as it is shown.
    pub fn scan_file(&mut self, pattern: &str, path: &str, content: &str, max_matches: u64)
        requires
            old(self)@.bounded(max_matches),
        ensures
            regex_fault(pattern@) is None ==> final(self)@ == old(self)@.after_lines(
                pattern@,
                path@,
                line_texts(content@),
                max_matches,
            ),
            regex_fault(pattern@) is Some ==> final(self)@ == old(self)@,
            final(self)@.bounded(max_matches),
    {
        if let Ok(regex) = compile(pattern) {
            self.scan_with(&regex, path, content, max_matches, Ghost(pattern@));
        }
    }

    /// What is shown in the end.
    pub fn finish(self) -> (report: String)
        ensures
            report@ == self@.report(),
    {
        let mut report = self.content;
        if self.match_count == 0 {
            report.append("No matches.\n");
        } else if self.was_truncated {
            report.append("Search results truncated.\n");
        }
        report
    }
}

} // verus!
