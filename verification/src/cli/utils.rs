//! Which files to process, and how to word what is reported.
use vstd::prelude::*;

verus! {

pub const DEFAULT_COLUMN_SPAN: usize = 80;

/// The extension of the files that are processed.
pub const LUA_EXTENSION: &'static str = "lua";

/// How many elements of a list are shown before the rest is only counted.
pub const SHOWN_ELEMENTS: usize = 7;

/// A path, by its components: the names between the separators, from the root down.
pub type PathComponents = Vec<String>;

/// The components of a path, whatever memory holds them.
pub open spec fn components(path: Seq<String>) -> Seq<Seq<char>> {
    path.map_values(|component: String| component@)
}

/// A file to process, and where what comes of it goes.
#[derive(Clone, Debug, PartialEq, Eq)]
pub struct FileProcessing {
    pub source: PathComponents,
    pub output: PathComponents,
}

/// What stands at a path.
#[derive(Clone, Copy, Debug, PartialEq, Eq, Structural)]
pub enum EntryKind {
    File,
    Directory,
    /// Neither a file nor a directory, or nothing at all.
    Other,
}

/// What to do with an entry of a directory that is walked.
#[derive(Debug, PartialEq, Eq)]
pub enum EntryAction {
    /// Walk the directory; what comes of its files goes under `output`.
    Descend { output: PathComponents },
    /// Process the file.
    Process(FileProcessing),
    /// Pass over a file that is no source file.
    Ignore,
    /// Report an entry that is neither a file nor a directory.
    ReportUnexpected,
    /// Report an entry whose path has no name.
    ReportUnnamed,
}

/// Whether two paths have the same components.
fn same_components(first: &PathComponents, second: &PathComponents) -> (same: bool)
    ensures
        same == (components(first@) == components(second@)),
{
    if first.len() != second.len() {
        assert(components(first@).len() != components(second@).len());
        return false;
    }
    let mut i: usize = 0;
    while i < first.len()
        invariant
            i <= first@.len(),
            first@.len() == second@.len(),
            forall|k: int| 0 <= k < i ==> first@[k]@ == second@[k]@,
        decreases first@.len() - i,
    {
        if first[i] != second[i] {
            assert(components(first@)[i as int] != components(second@)[i as int]);
            return false;
        }
        i += 1;
    }
    assert(components(first@) =~= components(second@));
    true
}

/// The path with one more component at its end.
fn joined_path(path: &PathComponents, name: &String) -> (longer: PathComponents)
    ensures
        components(longer@) == components(path@).push(name@),
{
    let mut longer: PathComponents = Vec::new();
    let mut i: usize = 0;
    while i < path.len()
        invariant
            i <= path@.len(),
            longer@ == path@.take(i as int),
        decreases path@.len() - i,
    {
        longer.push(path[i].clone());
        assert(path@.take(i + 1) =~= path@.take(i as int).push(path@[i as int]));
        i += 1;
    }
    assert(path@.take(path@.len() as int) =~= path@);
    longer.push(name.clone());
    assert(components(longer@) =~= components(path@).push(name@));
    longer
}

impl FileProcessing {
    /// The files to process for an input path: the input itself where it is
    /// a file; the files that a walk of it has found where it is a
    /// directory; none where it is neither.
    pub fn find(
        input: PathComponents,
        output: PathComponents,
        kind: EntryKind,
        found_below: Vec<FileProcessing>,
    ) -> (files: Vec<FileProcessing>)
        ensures
            kind is File ==> files@ == seq![FileProcessing { source: input, output }],
            kind is Directory ==> files == found_below,
            kind is Other ==> files@.len() == 0,
    {
        match kind {
            EntryKind::File => {
                let mut files = Vec::new();
                files.push(FileProcessing { source: input, output });
                files
            },
            EntryKind::Directory => found_below,
            EntryKind::Other => Vec::new(),
        }
    }

    /// Whether what comes of the file goes where the file is.
    pub fn is_in_place(&self) -> (in_place: bool)
        ensures
            in_place == (components(self.source@) == components(self.output@)),
    {
        same_components(&self.source, &self.output)
    }
}

/// What to do with an entry met in a directory that is walked: `path` is
/// the entry, `name` the last component of its path where it has one,
/// `extension` what follows the last dot of the name, and `output` is where
/// what comes of the directory goes.
///
/// A directory is walked, with the output of its name under `output`. A
/// file is processed where its extension is `lua`, to the output of its name
/// under `output`, and passed over else. Anything else is reported, and so
/// is an entry without a name.
pub fn entry_action(
    path: PathComponents,
    name: Option<String>,
    extension: Option<String>,
    kind: EntryKind,
    output: &PathComponents,
) -> (action: EntryAction)
    ensures
        match name {
            None => action is ReportUnnamed,
            Some(name) => match kind {
                EntryKind::Directory => action matches EntryAction::Descend { output: below } && components(below@)
                    == components(output@).push(name@),
                EntryKind::File => if extension matches Some(text) && text@ == LUA_EXTENSION@ {
                    action matches EntryAction::Process(file) && file.source == path && components(file.output@)
                        == components(output@).push(name@)
                } else {
                    action is Ignore
                },
                EntryKind::Other => action is ReportUnexpected,
            },
        },
{
    match name {
        None => EntryAction::ReportUnnamed,
        Some(name) => match kind {
            EntryKind::Directory => EntryAction::Descend { output: joined_path(output, &name) },
            EntryKind::File => {
                let is_source = match extension {
                    Some(text) => text == LUA_EXTENSION.to_owned(),
                    None => false,
                };
                if is_source {
                    EntryAction::Process(FileProcessing { source: path, output: joined_path(output, &name) })
                } else {
                    EntryAction::Ignore
                }
            },
            EntryKind::Other => EntryAction::ReportUnexpected,
        },
    }
}

/// The ending of a word that speaks of `count` things: `s` for more than one.
pub fn maybe_plural(count: usize) -> (ending: &'static str)
    ensures
        ending@ == (if count > 1 {
            "s"@
        } else {
            ""@
        }),
{
    if count > 1 {
        "s"
    } else {
        ""
    }
}

/// The character of a digit.
pub open spec fn digit(value: int) -> Seq<char> {
    if value == 0 {
        "0"@
    } else if value == 1 {
        "1"@
    } else if value == 2 {
        "2"@
    } else if value == 3 {
        "3"@
    } else if value == 4 {
        "4"@
    } else if value == 5 {
        "5"@
    } else if value == 6 {
        "6"@
    } else if value == 7 {
        "7"@
    } else if value == 8 {
        "8"@
    } else {
        "9"@
    }
}

/// A number as it is written in base ten.
pub open spec fn decimal(number: nat) -> Seq<char>
    decreases number,
{
    if number < 10 {
        digit(number as int)
    } else {
        decimal(number / 10) + digit((number % 10) as int)
    }
}

fn digit_text(value: usize) -> (text: &'static str)
    requires
        value < 10,
    ensures
        text@ == digit(value as int),
{
    if value == 0 {
        "0"
    } else if value == 1 {
        "1"
    } else if value == 2 {
        "2"
    } else if value == 3 {
        "3"
    } else if value == 4 {
        "4"
    } else if value == 5 {
        "5"
    } else if value == 6 {
        "6"
    } else if value == 7 {
        "7"
    } else if value == 8 {
        "8"
    } else {
        "9"
    }
}

/// Writes a number in base ten.
pub fn decimal_text(number: usize) -> (text: String)
    ensures
        text@ == decimal(number as nat),
    decreases number,
{
    if number < 10 {
        digit_text(number).to_owned()
    } else {
        let mut text = decimal_text(number / 10);
        text.append(digit_text(number % 10));
        text
    }
}

/// The first `count` of the texts, each two with the separator between them.
pub open spec fn joined(texts: Seq<Seq<char>>, separator: Seq<char>, count: nat) -> Seq<char>
    decreases count,
{
    if count == 0 || count > texts.len() {
        Seq::empty()
    } else if count == 1 {
        texts[0]
    } else {
        joined(texts, separator, (count - 1) as nat) + separator + texts[count - 1]
    }
}

/// What is shown of a list: all of its elements where they are seven or
/// fewer, else the first seven and a line that counts the others.
pub open spec fn shown(elements: Seq<Seq<char>>) -> Seq<Seq<char>> {
    if elements.len() > SHOWN_ELEMENTS {
        elements.take(SHOWN_ELEMENTS as int).push(
            "... and "@ + decimal((elements.len() - SHOWN_ELEMENTS) as nat) + " more"@,
        )
    } else {
        elements
    }
}

/// A list as it is reported: between brackets, one element to a line.
pub open spec fn log_array_text(elements: Seq<Seq<char>>) -> Seq<char> {
    "[\n    "@ + joined(shown(elements), ",\n    "@, shown(elements).len()) + "\n]"@
}

/// Words a list for a report: at most seven of its elements, one to a
/// line, and how many more there are.
pub fn log_array(elements: Vec<String>) -> (text: String)
    ensures
        text@ == log_array_text(components(elements@)),
{
    let ghost given = components(elements@);
    let ghost lines = shown(given);
    let total = elements.len();
    let count = if total > SHOWN_ELEMENTS {
        SHOWN_ELEMENTS
    } else {
        total
    };
    let mut text = "[\n    ".to_owned();
    let mut i: usize = 0;
    while i < count
        invariant
            i <= count,
            count <= total,
            total == elements@.len(),
            count <= SHOWN_ELEMENTS,
            given == components(elements@),
            lines == shown(given),
            count <= lines.len(),
            forall|k: int| 0 <= k < count ==> lines[k] == given[k],
            text@ == "[\n    "@ + joined(lines, ",\n    "@, i as nat),
        decreases count - i,
    {
        let ghost before = text@;
        if i > 0 {
            text.append(",\n    ");
        }
        text.append(elements[i].as_str());
        proof {
            assert(given[i as int] == elements@[i as int]@);
            let head = "[\n    "@;
            let separator = ",\n    "@;
            if i > 0 {
                assert(text@ =~= head + (joined(lines, separator, i as nat) + separator + lines[i as int]));
            } else {
                assert(joined(lines, separator, 0) =~= Seq::<char>::empty());
                assert(text@ =~= head + lines[0]);
            }
        }
        i += 1;
    }
    if total > SHOWN_ELEMENTS {
        let mut last = "... and ".to_owned();
        let more = decimal_text(total - SHOWN_ELEMENTS);
        last.append(more.as_str());
        last.append(" more");
        text.append(",\n    ");
        text.append(last.as_str());
        proof {
            let head = "[\n    "@;
            let separator = ",\n    "@;
            assert(lines.len() == SHOWN_ELEMENTS + 1);
            assert(last@ =~= lines[SHOWN_ELEMENTS as int]);
            assert(text@ =~= head + (joined(lines, separator, SHOWN_ELEMENTS as nat) + separator
                + lines[SHOWN_ELEMENTS as int]));
        }
    }
    text.append("\n]");
    text
}

} // verus!
