//! Finding out about the toolchain that is in use.

use vstd::prelude::*;
use vstd::string::*;

use crate::analysis::error::{AnalysisError, AnalysisErrorView};
use crate::text::{
    chars_of, find_char, has_prefix, is_space, leading_space, lemma_leading_space, lemma_until_char,
    lemma_until_space, lines, range_starts_with, second_word, string_views, trim, trimmed,
    until_char, until_space, words,
};

verus! {

/// The first line that starts with `host: `.
pub open spec fn host_line(lines: Seq<Seq<char>>) -> Option<Seq<char>>
    decreases lines.len(),
{
    if lines.len() == 0 {
        None
    } else if has_prefix(lines[0], "host: "@) {
        Some(lines[0])
    } else {
        host_line(lines.drop_first())
    }
}

/// The target triple in what `rustc --verbose --version` prints: the second word of the first line
/// that starts with `host: `.
pub open spec fn host_triple(verbose_version: Seq<char>) -> Option<Seq<char>> {
    match host_line(lines(verbose_version)) {
        Some(line) => if words(line).len() > 1 {
            Some(words(line)[1])
        } else {
            None
        },
        None => None,
    }
}

/// What an optional text says.
pub open spec fn option_text(text: Option<String>) -> Option<Seq<char>> {
    match text {
        Some(text) => Some(text@),
        None => None,
    }
}

/// Extracts the target triple from what `rustc --verbose --version` prints, which has a line like
/// `host: x86_64-unknown-linux-gnu`.
pub fn extract_rustc_host_triple(verbose_version: &str) -> (triple: Option<String>)
    ensures
        option_text(triple) == host_triple(verbose_version@),
{
    let chars = chars_of(verbose_version);
    let ghost text = verbose_version@;
    let mut at: usize = 0;
    assert(text.skip(0) == text);
    while at < chars.len()
        invariant
            chars@ == verbose_version@,
            text == verbose_version@,
            at <= chars@.len(),
            host_line(lines(text)) == host_line(lines(text.skip(at as int))),
        decreases chars@.len() - at,
    {
        let ghost rest = text.skip(at as int);
        assert(chars@.subrange(at as int, chars@.len() as int) =~= rest);
        let end = find_char(&chars, at, chars.len(), '\n');
        proof {
            lemma_until_char(rest, '\n');
        }
        let mut line_end: usize = end;
        if end < chars.len() && end > at && chars[end - 1] == '\r' {
            line_end = end - 1;
        }
        let ghost line = chars@.subrange(at as int, line_end as int);
        assert(lines(rest).len() > 0 && lines(rest)[0] == line) by {
            assert(rest.take(end - at) =~= chars@.subrange(at as int, end as int));
            if end == chars.len() {
                assert(line =~= rest);
            } else if line_end < end {
                assert(line =~= rest.take(end - at).drop_last());
            } else {
                assert(line =~= rest.take(end - at));
            }
        }
        if range_starts_with(&chars, at, line_end, "host: ") {
            return match second_word(&chars, at, line_end) {
                Some((start, stop)) => Some(
                    verbose_version.substring_char(start, stop).to_owned(),
                ),
                None => None,
            };
        }
        if end == chars.len() {
            assert(lines(rest).drop_first() =~= Seq::empty());
            assert(host_line(lines(rest).drop_first()) is None);
            return None;
        }
        assert(rest.skip(end - at + 1) =~= text.skip(end + 1));
        assert(lines(rest).drop_first() =~= lines(text.skip(end + 1)));
        at = end + 1;
    }
    None
}

/// What follows the first dash of a text, or the whole text where it has none.
pub open spec fn after_first_dash(text: Seq<char>) -> Seq<char> {
    let dash = until_char(text, '-');
    if dash < text.len() {
        text.skip(dash + 1)
    } else {
        text
    }
}

/// What the components of a path say: each as text, where it is text.
pub open spec fn component_texts(components: Seq<Option<String>>) -> Seq<Option<Seq<char>>> {
    components.map_values(|component: Option<String>| option_text(component))
}

/// The name of the toolchain whose sysroot has the given components: the last of them, if there is
/// one that is text.
pub open spec fn toolchain_name(sys_root_path: Seq<Option<Seq<char>>>) -> Option<Seq<char>> {
    if sys_root_path.len() > 0 {
        sys_root_path.last()
    } else {
        None
    }
}

/// The target triple in the name of the toolchain whose sysroot has the given components.
pub open spec fn toolchain_triple(sys_root_path: Seq<Option<Seq<char>>>) -> Result<
    Seq<char>,
    AnalysisErrorView,
> {
    match toolchain_name(sys_root_path) {
        Some(toolchain) => Ok(after_first_dash(toolchain)),
        None => Err(AnalysisErrorView::Other { cause: "extracting toolchain failed"@ }),
    }
}

/// The target triple: the one that `rustc` reports, or else the one in the name of the toolchain.
pub open spec fn target_triple(
    host: Option<Seq<char>>,
    sys_root_path: Seq<Option<Seq<char>>>,
) -> Result<Seq<char>, AnalysisErrorView> {
    match host {
        Some(host) => Ok(host),
        None => toolchain_triple(sys_root_path),
    }
}

/// What a result with a text says.
pub open spec fn text_outcome(result: Result<String, AnalysisError>) -> Result<
    Seq<char>,
    AnalysisErrorView,
> {
    match result {
        Ok(text) => Ok(text@),
        Err(error) => Err(error@),
    }
}

/// Extracts the target triple from the path of the sysroot, given by its components, each as text
/// where it is text: `x86_64-pc-windows-msvc` from a path that ends in
/// `nightly-x86_64-pc-windows-msvc`.
pub fn extract_rustup_target_triple(sys_root_path: &Vec<Option<String>>) -> (triple: Result<
    String,
    AnalysisError,
>)
    ensures
        text_outcome(triple) == toolchain_triple(component_texts(sys_root_path@)),
{
    if sys_root_path.len() == 0 {
        return Err(AnalysisError::other("extracting toolchain failed"));
    }
    assert(component_texts(sys_root_path@).last() == option_text(sys_root_path@.last()));
    match &sys_root_path[sys_root_path.len() - 1] {
        Some(toolchain) => {
            let toolchain = toolchain.as_str();
            let chars = chars_of(toolchain);
            let dash = find_char(&chars, 0, chars.len(), '-');
            assert(chars@.subrange(0, chars@.len() as int) == toolchain@);
            if dash < chars.len() {
                let triple = toolchain.substring_char(dash + 1, chars.len()).to_owned();
                assert(triple@ =~= after_first_dash(toolchain@));
                Ok(triple)
            } else {
                Ok(toolchain.to_owned())
            }
        },
        None => Err(AnalysisError::other("extracting toolchain failed")),
    }
}

/// The target triple: the one that `rustc` reports, or else the one in the path of the sysroot.
pub fn extract_target_triple(host: Option<String>, sys_root_path: &Vec<Option<String>>) -> (triple:
    Result<String, AnalysisError>)
    ensures
        text_outcome(triple) == target_triple(
            option_text(host),
            component_texts(sys_root_path@),
        ),
{
    match host {
        Some(host) => Ok(host),
        None => extract_rustup_target_triple(sys_root_path),
    }
}

/// The command that runs the compiler: what the variable `RUSTC` says, or else `rustc`.
pub fn rustc_command(variable: Option<String>) -> (command: String)
    ensures
        command@ == (match variable {
            Some(command) => command@,
            None => "rustc"@,
        }),
{
    match variable {
        Some(command) => command,
        None => "rustc".to_owned(),
    }
}

/// The sysroot: what the variable `SYSROOT` says, or else what `rustc --print sysroot` printed,
/// without the white space around it.
pub fn sys_root_path(variable: Option<String>, printed: Option<String>) -> (path: Result<
    String,
    AnalysisError,
>)
    ensures
        text_outcome(path) == (match (variable, printed) {
            (Some(path), _) => Ok(path@),
            (None, Some(printed)) => Ok(trim(printed@)),
            (None, None) => Err(AnalysisErrorView::CantResolveSysroot),
        }),
{
    match variable {
        Some(path) => Ok(path),
        None => match printed {
            Some(printed) => Ok(trimmed(printed.as_str())),
            None => Err(AnalysisError::CantResolveSysroot),
        },
    }
}

/// What the path of a folder starts with.
#[derive(Clone, Copy, Debug, PartialEq, Eq, Structural)]
pub enum FolderBase {
    /// The path of the crate.
    Crate,
    /// The sysroot.
    SysRoot,
}

/// A folder: `joins` is joined to the base, one after the other.
#[derive(Debug)]
pub struct Folder {
    pub base: FolderBase,
    pub joins: Vec<String>,
}

/// What a [`Folder`] says.
pub struct FolderView {
    pub base: FolderBase,
    pub joins: Seq<Seq<char>>,
}

impl View for Folder {
    type V = FolderView;

    open spec fn view(&self) -> FolderView {
        FolderView { base: self.base, joins: string_views(self.joins@) }
    }
}

/// Where the analysis data of the standard library lies: an error of the sysroot is handed on
/// before the target triple is looked for.
pub open spec fn system_folder(
    sys_root_path: Result<Seq<Option<Seq<char>>>, AnalysisErrorView>,
    host: Option<Seq<char>>,
) -> Result<FolderView, AnalysisErrorView> {
    match sys_root_path {
        Err(error) => Err(error),
        Ok(sys_root_path) => match target_triple(host, sys_root_path) {
            Err(error) => Err(error),
            Ok(triple) => Ok(
                FolderView {
                    base: FolderBase::SysRoot,
                    joins: seq!["lib"@, "rustlib"@, triple, "analysis"@],
                },
            ),
        },
    }
}

/// What the sysroot says, given by its components, or why it is not known.
pub open spec fn sys_root_view(
    sys_root_path: Result<Vec<Option<String>>, AnalysisError>,
) -> Result<Seq<Option<Seq<char>>>, AnalysisErrorView> {
    match sys_root_path {
        Ok(components) => Ok(component_texts(components@)),
        Err(error) => Err(error@),
    }
}

/// What a result with a folder says.
pub open spec fn folder_outcome(result: Result<Folder, AnalysisError>) -> Result<
    FolderView,
    AnalysisErrorView,
> {
    match result {
        Ok(folder) => Ok(folder@),
        Err(error) => Err(error@),
    }
}

/// Where the analysis data of the standard library lies. `sys_root_path` holds the components of
/// the sysroot's path, each as text where it is text, and `host` the triple that `rustc` reports.
pub fn system_analysis_folder(
    sys_root_path: Result<Vec<Option<String>>, AnalysisError>,
    host: Option<String>,
) -> (folder: Result<Folder, AnalysisError>)
    ensures
        folder_outcome(folder) == system_folder(sys_root_view(sys_root_path), option_text(host)),
{
    let sys_root_path = match sys_root_path {
        Ok(components) => components,
        Err(error) => {
            return Err(error);
        },
    };
    let target_triple = match extract_target_triple(host, &sys_root_path) {
        Ok(triple) => triple,
        Err(error) => {
            return Err(error);
        },
    };
    let mut joins: Vec<String> = Vec::new();
    joins.push("lib".to_owned());
    joins.push("rustlib".to_owned());
    joins.push(target_triple);
    joins.push("analysis".to_owned());
    assert(string_views(joins@) =~= seq!["lib"@, "rustlib"@, target_triple@, "analysis"@]);
    Ok(Folder { base: FolderBase::SysRoot, joins })
}

/// Where the analysis data of a crate lies.
pub open spec fn crate_folder() -> FolderView {
    FolderView {
        base: FolderBase::Crate,
        joins: seq!["target"@, "rls"@, "debug"@, "deps"@, "save-analysis"@],
    }
}

/// The folders that are searched for analysis data: that of the crate, and then that of the
/// standard library. Where the latter is not known, that error is handed on.
pub fn analysis_folders(system: Result<Folder, AnalysisError>) -> (folders: Result<
    Vec<Folder>,
    AnalysisError,
>)
    ensures
        match (folder_outcome(system), folders) {
            (Ok(system), Ok(folders)) => {
                &&& folders@.len() == 2
                &&& folders@[0]@ == crate_folder()
                &&& folders@[1]@ == system
            },
            (Err(error), Err(returned)) => returned@ == error,
            _ => false,
        },
{
    let system = match system {
        Ok(folder) => folder,
        Err(error) => {
            return Err(error);
        },
    };
    let mut joins: Vec<String> = Vec::new();
    joins.push("target".to_owned());
    joins.push("rls".to_owned());
    joins.push("debug".to_owned());
    joins.push("deps".to_owned());
    joins.push("save-analysis".to_owned());
    assert(string_views(joins@) =~= crate_folder().joins);
    let mut folders: Vec<Folder> = Vec::new();
    folders.push(Folder { base: FolderBase::Crate, joins });
    folders.push(system);
    Ok(folders)
}

/// The triple in the name of a toolchain is what follows the channel and a dash, whatever the
/// triple, if the channel has no dash itself.
pub proof fn law_toolchain_name(channel: Seq<char>, triple: Seq<char>)
    requires
        !channel.contains('-'),
    ensures
        after_first_dash(channel + seq!['-'] + triple) == triple,
{
    let name = channel + seq!['-'] + triple;
    lemma_until_char(name, '-');
    let dash = until_char(name, '-');
    assert(name[channel.len() as int] == '-');
    if dash < channel.len() {
        assert(channel[dash] == '-');
    }
    assert(name.skip(dash + 1) =~= triple);
}

/// The lines of two texts are the lines of both together, where the first ends its last line.
proof fn lemma_lines_concat(first: Seq<char>, second: Seq<char>)
    requires
        first.len() == 0 || first.last() == '\n',
    ensures
        lines(first + second) == lines(first) + lines(second),
    decreases first.len(),
{
    let both = first + second;
    if first.len() == 0 {
        assert(both =~= second);
        assert(lines(first) + lines(second) =~= lines(second));
    } else {
        lemma_until_char(first, '\n');
        lemma_until_char(both, '\n');
        let end = until_char(first, '\n');
        assert(first[first.len() - 1] == '\n');
        assert(end < first.len());
        assert(both[end] == '\n');
        if until_char(both, '\n') < end {
            assert(first[until_char(both, '\n')] == '\n');
        }
        assert(until_char(both, '\n') == end);
        assert(both.take(end) =~= first.take(end));
        let rest = first.skip(end + 1);
        assert(both.skip(end + 1) =~= rest + second);
        if rest.len() > 0 {
            assert(rest.last() == first.last());
        }
        lemma_lines_concat(rest, second);
        assert(lines(both) =~= lines(first) + lines(second));
    }
}

/// The first line that starts with `host: ` is not among the lines before it.
proof fn lemma_host_line_skips(before: Seq<Seq<char>>, line: Seq<char>, after: Seq<Seq<char>>)
    requires
        forall|i: int| 0 <= i < before.len() ==> !has_prefix(#[trigger] before[i], "host: "@),
        has_prefix(line, "host: "@),
    ensures
        host_line(before + seq![line] + after) == Some(line),
    decreases before.len(),
{
    let all = before + seq![line] + after;
    if before.len() > 0 {
        assert(all[0] == before[0]);
        assert(all.drop_first() =~= before.drop_first() + seq![line] + after);
        lemma_host_line_skips(before.drop_first(), line, after);
    } else {
        assert(all[0] == line);
    }
}

/// The triple of a `host: ` line is found wherever the line stands, if it is the first of its kind
/// and the triple holds no white space.
pub proof fn law_host_line(before: Seq<char>, triple: Seq<char>, after: Seq<char>)
    requires
        before.len() == 0 || before.last() == '\n',
        forall|i: int|
            0 <= i < lines(before).len() ==> !has_prefix(#[trigger] lines(before)[i], "host: "@),
        triple.len() > 0,
        forall|i: int| 0 <= i < triple.len() ==> !is_space(#[trigger] triple[i]),
    ensures
        host_triple(before + "host: "@ + triple + seq!['\n'] + after) == Some(triple),
{
    reveal_strlit("host: ");
    let line = "host: "@ + triple;
    let rest = line + seq!['\n'] + after;
    assert(before + "host: "@ + triple + seq!['\n'] + after =~= before + rest);
    lemma_lines_concat(before, rest);
    lemma_until_char(rest, '\n');
    let end = until_char(rest, '\n');
    assert(rest[line.len() as int] == '\n');
    if end < line.len() {
        if end < 6 {
            assert(rest[end] == "host: "@[end]);
        } else {
            assert(rest[end] == triple[end - 6]);
        }
    }
    assert(rest.take(end) =~= line);
    assert(line.last() == triple.last());
    assert(triple[triple.len() - 1] == triple.last());
    assert(lines(rest) =~= seq![line] + lines(rest.skip(end + 1)));
    assert(line.take(6) =~= "host: "@);
    lemma_host_line_skips(lines(before), line, lines(rest.skip(end + 1)));
    assert(lines(before) + lines(rest) =~= lines(before) + seq![line] + lines(rest.skip(end + 1)));
    lemma_host_words(triple);
}

proof fn lemma_host_words(triple: Seq<char>)
    requires
        triple.len() > 0,
        forall|i: int| 0 <= i < triple.len() ==> !is_space(#[trigger] triple[i]),
    ensures
        words("host: "@ + triple) == seq!["host:"@, triple],
{
    reveal_strlit("host: ");
    reveal_strlit("host:");
    let line = "host: "@ + triple;
    lemma_leading_space(line);
    assert(!is_space(line[0]));
    assert(line.skip(0) =~= line);
    lemma_until_space(line);
    assert(!is_space(line[0]) && !is_space(line[1]) && !is_space(line[2]) && !is_space(line[3])
        && !is_space(line[4]) && is_space(line[5]));
    assert(until_space(line) == 5);
    assert(line.take(5) =~= "host:"@);
    let rest = line.skip(5);
    lemma_leading_space(rest);
    assert(is_space(rest[0]) && rest[1] == triple[0]);
    assert(leading_space(rest) == 1);
    assert(rest.skip(1) =~= triple);
    lemma_until_space(triple);
    assert(until_space(triple) == triple.len());
    assert(triple.take(triple.len() as int) =~= triple);
    let end = triple.skip(triple.len() as int);
    lemma_leading_space(end);
    reveal_with_fuel(words, 3);
    assert(words(end).len() == 0);
    assert(words(rest) =~= seq![triple]);
    assert(words(line) =~= seq!["host:"@, triple]);
}

} // verus!
