//! A program of the stack machine: files linked one behind the other.
//!
//! The files of a program are kept in the order in which they were added.
//! Their commands stand in one table, file by file, and every command is
//! known by its position in that table.

use vstd::prelude::*;
use vstd::string::StringSliceAdditionalSpecFns;
use vstd::utf8::encode_utf8;
use super::command::{Command, Segment, STATIC_CELLS};
use super::names::Names;
use super::parser::{command, command_spec, tokens, tokens_spec, Context};
use crate::error::{LoadError, Span};
use crate::text::{
    bytes_equal, comment_start, comment_start_spec, line_end, line_end_bounds, line_end_spec, part,
};

verus! {

/// The place of a file in its program.
#[derive(Clone, Copy, Debug, PartialEq, Eq, Structural)]
pub struct File {
    /// The position of the file's first command in the program.
    pub starting_command_index: usize,
    /// The number of commands of the file.
    pub command_count: usize,
    /// The number of static cells that the files before this one have.
    pub statics_base: u16,
    /// The number of static cells of the file: one more than the largest
    /// static index in it.
    pub statics: u16,
}

impl File {
    /// The position behind the file's last command.
    pub open spec fn end(self) -> int {
        self.starting_command_index + self.command_count
    }
}

/// What has been read of a file: the commands, the line of each, the names
/// that the program knows, and the static cells that the file needs.
pub struct Parsed {
    pub names: Seq<Seq<u8>>,
    pub commands: Seq<Command>,
    pub spans: Seq<Span>,
    pub statics: u16,
}

/// What line `line` adds to what has been read: nothing if it holds no
/// word before its comment, its command otherwise.
#[verifier::opaque]
pub open spec fn read_line(line: Seq<u8>, span: Span, parsed: Parsed, statics_taken: u16) -> Result<
    Parsed,
    LoadError,
> {
    let code = line.take(comment_start_spec(line, 0));
    if tokens_spec(code).len() == 0 {
        Ok(parsed)
    } else {
        match command_spec(code, tokens_spec(code), span, Context { names: parsed.names, statics_taken }) {
            Err(error) => Err(error),
            Ok((command, names)) => Ok(
                Parsed {
                    names,
                    commands: parsed.commands.push(command),
                    spans: parsed.spans.push(span),
                    statics: if command.statics() > parsed.statics {
                        command.statics() as u16
                    } else {
                        parsed.statics
                    },
                },
            ),
        }
    }
}

/// What the lines of `text` from position `start` on add to what has been
/// read; `line` is the number of lines before `start`. The first line that
/// is no command makes the whole text fail.
pub open spec fn read_from(text: Seq<u8>, start: int, line: int, parsed: Parsed, statics_taken: u16) -> Result<
    Parsed,
    LoadError,
>
    decreases text.len() - start,
{
    if start < 0 || start > text.len() {
        Ok(parsed)
    } else {
        let end = line_end_spec(text, start);
        let span = Span { line: (line + 1) as usize, start: start as usize, end: end as usize };
        match read_line(text.subrange(start, end), span, parsed, statics_taken) {
            Err(error) => Err(error),
            Ok(parsed) => if end >= text.len() {
                Ok(parsed)
            } else {
                proof {
                    line_end_bounds(text, start);
                }
                read_from(text, end + 1, line + 1, parsed, statics_taken)
            },
        }
    }
}

/// A program as a mathematical value.
pub struct Linked {
    pub files: Seq<File>,
    /// The names of the files, as bytes.
    pub file_names: Seq<Seq<u8>>,
    /// The commands of all files, in the order of the files.
    pub commands: Seq<Command>,
    /// For each command, the line it stands in.
    pub spans: Seq<Span>,
    /// The names of labels and functions, in the order of first appearance.
    pub names: Seq<Seq<u8>>,
    /// The number of static cells that the files have together.
    pub statics_taken: u16,
}

impl Linked {
    /// A program without files.
    pub open spec fn empty() -> Linked {
        Linked {
            files: Seq::empty(),
            file_names: Seq::empty(),
            commands: Seq::empty(),
            spans: Seq::empty(),
            names: Seq::empty(),
            statics_taken: 0,
        }
    }

    /// The files lie one behind the other and cover the commands; no two
    /// files have the same name; every command has its line, keeps to its
    /// limits and names a known name.
    pub open spec fn wf(self) -> bool {
        &&& self.file_names.len() == self.files.len()
        &&& forall|f: int, g: int|
            0 <= f < g < self.file_names.len() ==> #[trigger] self.file_names[f]
                != #[trigger] self.file_names[g]
        &&& self.spans.len() == self.commands.len()
        &&& self.statics_taken <= STATIC_CELLS
        &&& forall|f: int|
            0 <= f < self.files.len() ==> (#[trigger] self.files[f]).end() <= self.commands.len()
                && self.files[f].statics_base + self.files[f].statics <= self.statics_taken
        &&& forall|f: int, g: int|
            0 <= f && g == f + 1 && g < self.files.len() ==> (#[trigger] self.files[f]).end() == (
            #[trigger] self.files[g]).starting_command_index
        &&& self.files.len() == 0 ==> self.commands.len() == 0
        &&& self.files.len() > 0 ==> self.files[0].starting_command_index == 0
            && self.files.last().end() == self.commands.len()
        &&& forall|k: int|
            0 <= k < self.commands.len() ==> (#[trigger] self.commands[k]).wf() && (
            self.commands[k].name() matches Some(name) ==> name < self.names.len())
    }

    /// Whether a file named `name` is part of the program.
    pub open spec fn has_file(self, name: Seq<u8>) -> bool {
        self.file_names.contains(name)
    }

    /// The program with one more file, named `name`, whose text is `text`:
    /// its commands are put behind those of the files before. A name that a
    /// file of the program has already, or a text with a line that is no
    /// command, gives no program.
    pub open spec fn add_file(self, name: Seq<u8>, text: Seq<u8>) -> Result<Linked, LoadError> {
        if self.has_file(name) {
            Err(LoadError::DuplicateFile)
        } else {
            match read_from(
                text,
                0,
                0,
                Parsed { names: self.names, commands: self.commands, spans: self.spans, statics: 0 },
                self.statics_taken,
            ) {
                Err(error) => Err(error),
                Ok(parsed) => Ok(
                    Linked {
                        files: self.files.push(
                            File {
                                starting_command_index: self.commands.len() as usize,
                                command_count: (parsed.commands.len() - self.commands.len()) as usize,
                                statics_base: self.statics_taken,
                                statics: parsed.statics,
                            },
                        ),
                        file_names: self.file_names.push(name),
                        commands: parsed.commands,
                        spans: parsed.spans,
                        names: parsed.names,
                        statics_taken: (self.statics_taken + parsed.statics) as u16,
                    },
                ),
            }
        }
    }

    /// The file that command `command` belongs to, looking from file `from` on.
    pub open spec fn file_from(self, command: int, from: int) -> int
        decreases self.files.len() - from,
    {
        if from < 0 || from >= self.files.len() {
            self.files.len() as int
        } else if command < self.files[from].end() {
            from
        } else {
            self.file_from(command, from + 1)
        }
    }

    /// The file that command `command` belongs to.
    pub open spec fn file_of(self, command: int) -> int {
        self.file_from(command, 0)
    }
}

/// Reading on only adds: what has been read stays, command by command and
/// name by name.
pub proof fn reading_keeps_what_is_read(
    text: Seq<u8>,
    start: int,
    line: int,
    parsed: Parsed,
    statics_taken: u16,
)
    requires
        parsed.spans.len() == parsed.commands.len(),
    ensures
        read_from(text, start, line, parsed, statics_taken) matches Ok(read) ==> {
            &&& parsed.commands.len() <= read.commands.len() == read.spans.len()
            &&& read.commands.take(parsed.commands.len() as int) == parsed.commands
            &&& read.spans.take(parsed.spans.len() as int) == parsed.spans
            &&& parsed.names.len() <= read.names.len()
            &&& read.names.take(parsed.names.len() as int) == parsed.names
        },
    decreases text.len() - start,
{
    reveal(read_line);
    assert(parsed.commands.take(parsed.commands.len() as int) == parsed.commands);
    assert(parsed.spans.take(parsed.spans.len() as int) == parsed.spans);
    assert(parsed.names.take(parsed.names.len() as int) == parsed.names);
    if 0 <= start <= text.len() {
        let end = line_end_spec(text, start);
        let span = Span { line: (line + 1) as usize, start: start as usize, end: end as usize };
        match read_line(text.subrange(start, end), span, parsed, statics_taken) {
            Err(_) => {},
            Ok(next) => {
                assert(next.commands.take(parsed.commands.len() as int) == parsed.commands);
                assert(next.spans.take(parsed.spans.len() as int) == parsed.spans);
                assert(next.names.take(parsed.names.len() as int) == parsed.names);
                if end < text.len() {
                    line_end_bounds(text, start);
                    reading_keeps_what_is_read(text, end + 1, line + 1, next, statics_taken);
                    let read = read_from(text, end + 1, line + 1, next, statics_taken);
                    if read is Ok {
                        let read = read.unwrap();
                        assert(read.commands.take(parsed.commands.len() as int)
                            =~= read.commands.take(next.commands.len() as int).take(
                            parsed.commands.len() as int,
                        ));
                        assert(read.spans.take(parsed.spans.len() as int) =~= read.spans.take(
                            next.spans.len() as int,
                        ).take(parsed.spans.len() as int));
                        assert(read.names.take(parsed.names.len() as int) =~= read.names.take(
                            next.names.len() as int,
                        ).take(parsed.names.len() as int));
                    }
                }
            },
        }
    }
}

/// Adding a file leaves the files, the commands and the names that the
/// program has where they are: the position of a command in the program
/// never changes.
pub proof fn adding_keeps_positions(linked: Linked, name: Seq<u8>, text: Seq<u8>)
    requires
        linked.wf(),
    ensures
        linked.add_file(name, text) matches Ok(added) ==> {
            &&& added.files.drop_last() == linked.files
            &&& added.file_names.drop_last() == linked.file_names
            &&& added.commands.take(linked.commands.len() as int) == linked.commands
            &&& added.spans.take(linked.spans.len() as int) == linked.spans
            &&& added.names.take(linked.names.len() as int) == linked.names
        },
{
    reading_keeps_what_is_read(
        text,
        0,
        0,
        Parsed { names: linked.names, commands: linked.commands, spans: linked.spans, statics: 0 },
        linked.statics_taken,
    );
    if linked.add_file(name, text) is Ok {
        let added = linked.add_file(name, text).unwrap();
        assert(added.files.drop_last() =~= linked.files);
        assert(added.file_names.drop_last() =~= linked.file_names);
    }
}

/// The file that a command of the program belongs to is a file of the
/// program, and the command lies within it.
pub proof fn file_of_holds_command(linked: Linked, command: int, from: int)
    requires
        linked.wf(),
        0 <= from < linked.files.len(),
        linked.files[from].starting_command_index <= command < linked.commands.len(),
    ensures
        from <= linked.file_from(command, from) < linked.files.len(),
        linked.files[linked.file_from(command, from)].starting_command_index <= command
            < linked.files[linked.file_from(command, from)].end(),
    decreases linked.files.len() - from,
{
    if command >= linked.files[from].end() {
        assert(from + 1 < linked.files.len()) by {
            if from + 1 == linked.files.len() {
                assert(linked.files.last() == linked.files[from]);
            }
        }
        assert(linked.files[from + 1].starting_command_index == linked.files[from].end());
        file_of_holds_command(linked, command, from + 1);
    }
}

/// A program of the stack machine.
pub struct Program {
    files: Vec<File>,
    file_names: Vec<String>,
    all_commands: Vec<Command>,
    spans: Vec<Span>,
    names: Names,
    statics_taken: u16,
}

impl View for Program {
    type V = Linked;

    closed spec fn view(&self) -> Linked {
        linked_of(
            self.files@,
            self.file_names@,
            self.all_commands@,
            self.spans@,
            self.names@,
            self.statics_taken,
        )
    }
}

/// The program that is made of these parts.
spec fn linked_of(
    files: Seq<File>,
    file_names: Seq<String>,
    commands: Seq<Command>,
    spans: Seq<Span>,
    names: Seq<Seq<u8>>,
    statics_taken: u16,
) -> Linked {
    Linked {
        files,
        file_names: file_names.map_values(|name: String| encode_utf8(name@)),
        commands,
        spans,
        names,
        statics_taken,
    }
}

/// Reads the line `text[start..end]`, which has `line` lines before it, and
/// puts its command, if it has one, behind `all_commands`, and the line
/// behind `spans`.
fn read_one(
    text: &[u8],
    line: usize,
    start: usize,
    end: usize,
    all_commands: &mut Vec<Command>,
    spans: &mut Vec<Span>,
    names: &mut Names,
    statics: &mut u16,
    taken: u16,
) -> (result: Result<(), LoadError>)
    requires
        line <= start <= end <= text.len(),
        *old(statics) + taken <= STATIC_CELLS,
    ensures
        read_line(
            text@.subrange(start as int, end as int),
            Span { line: (line + 1) as usize, start, end },
            Parsed {
                names: old(names)@,
                commands: old(all_commands)@,
                spans: old(spans)@,
                statics: *old(statics),
            },
            taken,
        ) == match result {
            Ok(()) => Ok::<Parsed, LoadError>(
                Parsed {
                    names: final(names)@,
                    commands: final(all_commands)@,
                    spans: final(spans)@,
                    statics: *final(statics),
                },
            ),
            Err(error) => Err::<Parsed, LoadError>(error),
        },
        result is Err ==> final(names)@ == old(names)@ && final(all_commands)@ == old(
            all_commands,
        )@ && final(spans)@ == old(spans)@ && *final(statics) == *old(statics),
        *final(statics) + taken <= STATIC_CELLS,
        final(names)@.take(old(names)@.len() as int) == old(names)@,
        old(names)@.len() <= final(names)@.len(),
        final(all_commands)@ == old(all_commands)@ || (final(all_commands)@.drop_last() == old(
            all_commands,
        )@ && final(all_commands)@.len() == old(all_commands)@.len() + 1
            && final(all_commands)@.last().wf() && (final(all_commands)@.last().name() matches Some(
            name,
        ) ==> name < final(names)@.len())),
        final(spans)@ == old(spans)@ || (final(spans)@.drop_last() == old(spans)@
            && final(spans)@.len() == old(spans)@.len() + 1),
        final(spans)@.len() - old(spans)@.len() == final(all_commands)@.len() - old(
            all_commands,
        )@.len(),
{
    reveal(read_line);
    assert(names@.take(names@.len() as int) == names@);
    let whole = part(text, start, end);
    let code = part(whole, 0, comment_start(whole));
    let words = tokens(code);
    if words.len() == 0 {
        return Ok(());
    }
    let span = Span::of_line(line, start, end);
    match command(code, &words, span, names, taken) {
        Err(error) => Err(error),
        Ok(command) => {
            let needed = match command {
                Command::Push(Segment::Static, index) => index + 1,
                Command::Pop(Segment::Static, index) => index + 1,
                _ => 0,
            };
            if needed > *statics {
                *statics = needed;
            }
            all_commands.push(command);
            spans.push(span);
            assert(all_commands@.drop_last() == old(all_commands)@);
            assert(spans@.drop_last() == old(spans)@);
            Ok(())
        },
    }
}

/// Reads the file named `name` with text `contents` and adds it to the
/// program that is made of the parts given. If that fails, the parts stay
/// as they were.
fn read_file(
    files: &mut Vec<File>,
    file_names: &mut Vec<String>,
    all_commands: &mut Vec<Command>,
    spans: &mut Vec<Span>,
    names: &mut Names,
    statics_taken: &mut u16,
    name: &str,
    contents: &str,
) -> (result: Result<(), LoadError>)
    requires
        linked_of(
            old(files)@,
            old(file_names)@,
            old(all_commands)@,
            old(spans)@,
            old(names)@,
            *old(statics_taken),
        ).wf(),
        !linked_of(
            old(files)@,
            old(file_names)@,
            old(all_commands)@,
            old(spans)@,
            old(names)@,
            *old(statics_taken),
        ).has_file(name.spec_bytes()),
    ensures
        linked_of(
            final(files)@,
            final(file_names)@,
            final(all_commands)@,
            final(spans)@,
            final(names)@,
            *final(statics_taken),
        ).wf(),
        match linked_of(
            old(files)@,
            old(file_names)@,
            old(all_commands)@,
            old(spans)@,
            old(names)@,
            *old(statics_taken),
        ).add_file(name.spec_bytes(), contents.spec_bytes()) {
            Ok(linked) => result == Ok::<(), LoadError>(()) && linked_of(
                final(files)@,
                final(file_names)@,
                final(all_commands)@,
                final(spans)@,
                final(names)@,
                *final(statics_taken),
            ) == linked,
            Err(error) => result == Err::<(), LoadError>(error) && linked_of(
                final(files)@,
                final(file_names)@,
                final(all_commands)@,
                final(spans)@,
                final(names)@,
                *final(statics_taken),
            ) == linked_of(
                old(files)@,
                old(file_names)@,
                old(all_commands)@,
                old(spans)@,
                old(names)@,
                *old(statics_taken),
            ),
        },
{
    let ghost initial = Parsed {
        names: names@,
        commands: all_commands@,
        spans: spans@,
        statics: 0,
    };
    let text = contents.as_bytes();
    let taken = *statics_taken;
    let first = all_commands.len();
    let known = names.len();
    let mut statics: u16 = 0;
    let mut start: usize = 0;
    let mut line: usize = 0;
    let mut failure: Option<LoadError> = None;
    loop
        invariant_except_break
            line <= start <= text.len(),
            failure.is_none(),
            read_from(text@, 0, 0, initial, taken) == read_from(
                text@,
                start as int,
                line as int,
                Parsed { names: names@, commands: all_commands@, spans: spans@, statics },
                taken,
            ),
        invariant
            first == initial.commands.len() == initial.spans.len(),
            known == initial.names.len(),
            first <= all_commands.len(),
            spans.len() == all_commands.len(),
            known <= names@.len(),
            all_commands@.take(first as int) == initial.commands,
            spans@.take(first as int) == initial.spans,
            names@.take(known as int) == initial.names,
            statics + taken <= STATIC_CELLS,
            forall|k: int|
                first <= k < all_commands.len() ==> (#[trigger] all_commands@[k]).wf() && (
                all_commands@[k].name() matches Some(name) ==> name < names@.len()),
        ensures
            read_from(text@, 0, 0, initial, taken) == match failure {
                None => Ok::<Parsed, LoadError>(
                    Parsed { names: names@, commands: all_commands@, spans: spans@, statics },
                ),
                Some(error) => Err::<Parsed, LoadError>(error),
            },
        decreases text.len() - start,
    {
        let end = line_end(text, start);
        let ghost commands_before = all_commands@;
        let ghost spans_before = spans@;
        let ghost names_before = names@;
        match read_one(text, line, start, end, all_commands, spans, names, &mut statics, taken) {
            Err(error) => {
                failure = Some(error);
                break;
            },
            Ok(()) => {},
        }
        proof {
            assert forall|k: int| first <= k < all_commands.len() implies (
            #[trigger] all_commands@[k]).wf() && (all_commands@[k].name() matches Some(name) ==> name
                < names@.len()) by {
                if k < commands_before.len() {
                    assert(all_commands@[k] == commands_before[k]) by {
                        if all_commands@ != commands_before {
                            assert(all_commands@.drop_last()[k] == all_commands@[k]);
                        }
                    }
                } else {
                    assert(all_commands@[k] == all_commands@.last());
                }
            }
            assert(all_commands@.take(first as int) =~= commands_before.take(first as int));
            assert(spans@.take(first as int) =~= spans_before.take(first as int));
            assert(names@.take(known as int) =~= names_before.take(known as int));
        }
        if end >= text.len() {
            break;
        }
        start = end + 1;
        line = line + 1;
    }
    match failure {
        Some(error) => {
            all_commands.truncate(first);
            spans.truncate(first);
            names.truncate(known);
            Err(error)
        },
        None => {
            files.push(
                File {
                    starting_command_index: first,
                    command_count: all_commands.len() - first,
                    statics_base: taken,
                    statics,
                },
            );
            file_names.push(name.to_owned());
            *statics_taken = taken + statics;
            assert(file_names@.map_values(|name: String| encode_utf8(name@)) =~= old(
                file_names,
            )@.map_values(|name: String| encode_utf8(name@)).push(name.spec_bytes()));
            let ghost before = linked_of(
                old(files)@,
                old(file_names)@,
                old(all_commands)@,
                old(spans)@,
                old(names)@,
                *old(statics_taken),
            );
            let ghost after = linked_of(
                files@,
                file_names@,
                all_commands@,
                spans@,
                names@,
                *statics_taken,
            );
            assert forall|f: int, g: int|
                0 <= f && g == f + 1 && g < after.files.len() implies (#[trigger] after.files[f]).end()
                == (#[trigger] after.files[g]).starting_command_index by {
                assert(after.files[f] == before.files[f]);
                if g < before.files.len() {
                    assert(after.files[g] == before.files[g]);
                } else {
                    assert(before.files[f] == before.files.last());
                }
            }
            assert forall|k: int| 0 <= k < after.commands.len() implies (
            #[trigger] after.commands[k]).wf() && (after.commands[k].name() matches Some(name)
                ==> name < after.names.len()) by {
                if k < first {
                    assert(after.commands[k] == after.commands.take(first as int)[k]);
                    assert(before.commands[k].wf());
                }
            }
            Ok(())
        },
    }
}

impl Program {
    /// What holds of every program.
    #[verifier::type_invariant]
    pub open spec fn inv(&self) -> bool {
        self@.wf()
    }

    /// A program without files.
    pub fn new() -> (program: Program)
        ensures
            program@ == Linked::empty(),
    {
        let program = Program {
            files: Vec::new(),
            file_names: Vec::new(),
            all_commands: Vec::new(),
            spans: Vec::new(),
            names: Names::new(),
            statics_taken: 0,
        };
        assert(program.file_names@.map_values(|name: String| encode_utf8(name@)) =~= Seq::empty());
        program
    }

    /// The files, in the order in which they were added.
    pub fn files(&self) -> (files: &Vec<File>)
        ensures
            files@ == self@.files,
    {
        &self.files
    }

    /// The name of file `file`.
    pub fn file_name(&self, file: usize) -> (name: &String)
        requires
            file < self@.files.len(),
        ensures
            encode_utf8(name@) == self@.file_names[file as int],
    {
        proof {
            use_type_invariant(self);
        }
        &self.file_names[file]
    }

    /// The commands of all files.
    pub fn all_commands(&self) -> (commands: &Vec<Command>)
        ensures
            commands@ == self@.commands,
    {
        &self.all_commands
    }

    /// For each command, the line of its file that it stands in.
    pub fn spans(&self) -> (spans: &Vec<Span>)
        ensures
            spans@ == self@.spans,
    {
        &self.spans
    }

    /// The names of labels and functions.
    pub fn names(&self) -> (names: &Names)
        ensures
            names@ == self@.names,
    {
        &self.names
    }

    /// The position of the file named `name` among the files.
    pub fn file_index(&self, name: &str) -> (index: Option<usize>)
        ensures
            index matches Some(i) ==> i < self@.file_names.len() && self@.file_names[i as int]
                == name.spec_bytes(),
            index.is_none() ==> !self@.has_file(name.spec_bytes()),
    {
        let mut i: usize = 0;
        while i < self.file_names.len()
            invariant
                i <= self.file_names.len(),
                forall|k: int| 0 <= k < i ==> self@.file_names[k] != name.spec_bytes(),
            decreases self.file_names.len() - i,
        {
            if bytes_equal(self.file_names[i].as_str().as_bytes(), name.as_bytes()) {
                return Some(i);
            }
            i += 1;
        }
        None
    }

    /// The file that command `command` belongs to.
    pub fn file_of(&self, command: usize) -> (file: usize)
        requires
            command < self@.commands.len(),
        ensures
            file == self@.file_of(command as int),
            file < self@.files.len(),
            self@.files[file as int].starting_command_index <= command < self@.files[file as int].end()
                <= self@.commands.len(),
    {
        proof {
            use_type_invariant(self);
            file_of_holds_command(self@, command as int, 0);
        }
        let mut file: usize = 0;
        while command - self.files[file].starting_command_index >= self.files[file].command_count
            invariant
                self@.wf(),
                file < self.files.len(),
                command < self.all_commands.len(),
                self.files[file as int].starting_command_index <= command,
                self@.file_of(command as int) == self@.file_from(command as int, file as int),
                file <= self@.file_from(command as int, file as int) < self.files.len(),
            decreases self.files.len() - file,
        {
            proof {
                file_of_holds_command(self@, command as int, file as int);
                assert(self@.files[file + 1].starting_command_index == self@.files[file as int].end());
                file_of_holds_command(self@, command as int, file + 1);
            }
            file += 1;
        }
        proof {
            file_of_holds_command(self@, command as int, file as int);
        }
        file
    }

    /// Adds the file named `name` with text `contents` to the program. If
    /// that fails, the program stays as it was.
    pub fn add_file(&mut self, name: &str, contents: &str) -> (result: Result<(), LoadError>)
        ensures
            match old(self)@.add_file(name.spec_bytes(), contents.spec_bytes()) {
                Ok(linked) => result == Ok::<(), LoadError>(()) && final(self)@ == linked,
                Err(error) => result == Err::<(), LoadError>(error) && final(self)@ == old(self)@,
            },
    {
        proof {
            use_type_invariant(&*self);
        }
        if self.file_index(name).is_some() {
            return Err(LoadError::DuplicateFile);
        }
        let mut taken = Program::new();
        proof {
            use_type_invariant(&taken);
        }
        core::mem::swap(self, &mut taken);
        let Program {
            mut files,
            mut file_names,
            mut all_commands,
            mut spans,
            mut names,
            mut statics_taken,
        } = taken;
        let result = read_file(
            &mut files,
            &mut file_names,
            &mut all_commands,
            &mut spans,
            &mut names,
            &mut statics_taken,
            name,
            contents,
        );
        *self = Program { files, file_names, all_commands, spans, names, statics_taken };
        result
    }

}

} // verus!
