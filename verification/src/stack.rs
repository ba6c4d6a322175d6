//! Symbolized stacks: how a frame is written out, and which thread of a
//! process is taken for the one that crashed.

use crate::symbols::leaf_of;
use crate::text::{decimal_string, decimal_text, glued};
use vstd::prelude::*;

verus! {

/// The function through which the application writes its crash report. A
/// thread with this function on its stack is the one that crashed. The
/// name is the application's: if it renames the function, no thread is
/// found any more.
pub const CRASH_ENTRY: &'static str = "CrashLog::MakeCrashLog()";

/// What stands for the module of a frame that belongs to none.
pub const UNKNOWN_MODULE: &'static str = "unknown";

/// What stands for a function or a source file that was not resolved.
pub const UNRESOLVED: &'static str = "??";

/// One frame of a thread's stack, as far as it was resolved.
#[derive(Debug)]
pub struct StackFrame {
    /// The path of the module that holds the instruction.
    pub module: Option<String>,
    pub function_name: Option<String>,
    pub source_file_name: Option<String>,
    pub source_line: Option<u32>,
    pub instruction: u64,
}

/// The stack of one thread, innermost frame first.
#[derive(Debug)]
pub struct ThreadState {
    pub frames: Vec<StackFrame>,
}

/// The threads of the process that a dump was taken of.
#[derive(Debug)]
pub struct ProcessState {
    pub threads: Vec<ThreadState>,
}

/// A frame as a value: its texts as sequences of characters.
pub struct Frame {
    pub module: Option<Seq<char>>,
    pub function_name: Option<Seq<char>>,
    pub source_file_name: Option<Seq<char>>,
    pub source_line: Option<u32>,
    pub instruction: u64,
}

/// The characters of a text that may be missing.
pub open spec fn text_of(text: Option<String>) -> Option<Seq<char>> {
    match text {
        Some(text) => Some(text@),
        None => None,
    }
}

impl View for StackFrame {
    type V = Frame;

    open spec fn view(&self) -> Frame {
        Frame {
            module: text_of(self.module),
            function_name: text_of(self.function_name),
            source_file_name: text_of(self.source_file_name),
            source_line: self.source_line,
            instruction: self.instruction,
        }
    }
}

impl View for ThreadState {
    type V = Seq<Frame>;

    open spec fn view(&self) -> Seq<Frame> {
        self.frames@.map_values(|frame: StackFrame| frame@)
    }
}

impl View for ProcessState {
    type V = Seq<Seq<Frame>>;

    open spec fn view(&self) -> Seq<Seq<Frame>> {
        self.threads@.map_values(|thread: ThreadState| thread@)
    }
}

impl Frame {
    /// The module's name as it is shown: the leaf of its path.
    pub open spec fn module_label(self) -> Seq<char> {
        match self.module {
            Some(path) => leaf_of(path),
            None => UNKNOWN_MODULE@,
        }
    }

    pub open spec fn function_label(self) -> Seq<char> {
        match self.function_name {
            Some(name) => name,
            None => UNRESOLVED@,
        }
    }

    pub open spec fn source_label(self) -> Seq<char> {
        match self.source_file_name {
            Some(name) => name,
            None => UNRESOLVED@,
        }
    }

    pub open spec fn line_number(self) -> nat {
        match self.source_line {
            Some(line) => line as nat,
            None => 0,
        }
    }

    /// The frame's line in a stack trace: module, `!`, function, two
    /// spaces, source file, `:`, line number.
    pub open spec fn line(self) -> Seq<char> {
        self.module_label() + seq!['!'] + self.function_label() + seq![' ', ' ']
            + self.source_label() + seq![':'] + decimal_text(self.line_number())
    }

    /// Whether the frame is in the application's crash entry.
    pub open spec fn is_crash_entry(self) -> bool {
        self.function_label() == CRASH_ENTRY@
    }
}

/// The lines of a stack, one for each frame, in the frames' order.
pub open spec fn trace_lines(frames: Seq<Frame>) -> Seq<Seq<char>> {
    frames.map_values(|frame: Frame| frame.line())
}

/// A stack written out: its lines with a line feed between each two.
pub open spec fn trace_text(frames: Seq<Frame>) -> Seq<char> {
    glued(trace_lines(frames), seq!['\n'])
}

/// Whether some frame of the stack is in the crash entry.
pub open spec fn holds_crash_entry(frames: Seq<Frame>) -> bool {
    exists|i: int| 0 <= i < frames.len() && (#[trigger] frames[i]).is_crash_entry()
}

/// Whether thread `index` is the first whose stack holds the crash entry.
pub open spec fn is_crashing_thread(threads: Seq<Seq<Frame>>, index: int) -> bool {
    &&& 0 <= index < threads.len()
    &&& holds_crash_entry(threads[index])
    &&& forall|earlier: int| 0 <= earlier < index ==> !holds_crash_entry(#[trigger] threads[earlier])
}

/// The thread that crashed: the first whose stack holds the crash entry, if
/// there is one.
pub open spec fn crashing_thread(threads: Seq<Seq<Frame>>) -> Option<int>
    decreases threads.len(),
{
    if threads.len() == 0 {
        None
    } else {
        match crashing_thread(threads.drop_last()) {
            Some(index) => Some(index),
            None => if holds_crash_entry(threads.last()) {
                Some(threads.len() - 1)
            } else {
                None
            },
        }
    }
}

/// [`crashing_thread`] finds the first thread with the crash entry, and
/// finds none only where no thread has it.
pub proof fn lemma_crashing_thread(threads: Seq<Seq<Frame>>)
    ensures
        match crashing_thread(threads) {
            Some(index) => is_crashing_thread(threads, index),
            None => forall|i: int| 0 <= i < threads.len() ==> !holds_crash_entry(#[trigger] threads[i]),
        },
    decreases threads.len(),
{
    if threads.len() > 0 {
        let shorter = threads.drop_last();
        lemma_crashing_thread(shorter);
        match crashing_thread(shorter) {
            Some(index) => {
                assert(shorter[index] == threads[index]);
                assert forall|earlier: int| 0 <= earlier < index implies !holds_crash_entry(
                    #[trigger] threads[earlier],
                ) by {
                    assert(shorter[earlier] == threads[earlier]);
                }
            },
            None => {
                assert forall|i: int| 0 <= i < threads.len() - 1 implies !holds_crash_entry(
                    #[trigger] threads[i],
                ) by {
                    assert(shorter[i] == threads[i]);
                }
            },
        }
    }
}

/// Only one thread can be the crashing one.
pub proof fn lemma_crashing_thread_is_unique(threads: Seq<Seq<Frame>>, index: int)
    requires
        is_crashing_thread(threads, index),
    ensures
        crashing_thread(threads) == Some(index),
{
    lemma_crashing_thread(threads);
}

/// Calls `minidump_common::utils::basename`, which returns what follows the
/// last slash or backslash of `name`, and all of `name` where it holds
/// neither.
#[verifier::external_body]
fn basename(name: &str) -> (leaf: &str)
    ensures
        leaf@ == leaf_of(name@),
{
    minidump_common::utils::basename(name)
}

impl StackFrame {
    /// The name under which the frame's module is shown.
    pub fn module_label(&self) -> (label: &str)
        ensures
            label@ == self@.module_label(),
    {
        match &self.module {
            Some(path) => basename(path.as_str()),
            None => UNKNOWN_MODULE,
        }
    }

    /// The frame's function, or the placeholder for an unresolved one.
    pub fn function_label(&self) -> (label: &str)
        ensures
            label@ == self@.function_label(),
    {
        match &self.function_name {
            Some(name) => name.as_str(),
            None => UNRESOLVED,
        }
    }

    /// The frame's source file, or the placeholder for an unresolved one.
    pub fn source_label(&self) -> (label: &str)
        ensures
            label@ == self@.source_label(),
    {
        match &self.source_file_name {
            Some(name) => name.as_str(),
            None => UNRESOLVED,
        }
    }

    /// The frame's source line, or 0 for an unresolved one.
    pub fn line_number(&self) -> (line: u32)
        ensures
            line == self@.line_number(),
    {
        match self.source_line {
            Some(line) => line,
            None => 0,
        }
    }

    /// The frame's line in a stack trace.
    pub fn line(&self) -> (line: String)
        ensures
            line@ == self@.line(),
    {
        let mut line = self.module_label().to_owned();
        line.append("!");
        line.append(self.function_label());
        line.append("  ");
        line.append(self.source_label());
        line.append(":");
        line.append(decimal_string(self.line_number()).as_str());
        proof {
            reveal_strlit("!");
            reveal_strlit("  ");
            reveal_strlit(":");
            assert("!"@ =~= seq!['!']);
            assert("  "@ =~= seq![' ', ' ']);
            assert(":"@ =~= seq![':']);
        }
        line
    }

    /// Whether the frame is in the application's crash entry.
    pub fn is_crash_entry(&self) -> (found: bool)
        ensures
            found == self@.is_crash_entry(),
    {
        self.function_label().eq(CRASH_ENTRY)
    }
}

impl ThreadState {
    /// Whether some frame of this thread is in the crash entry.
    pub fn holds_crash_entry(&self) -> (found: bool)
        ensures
            found == holds_crash_entry(self@),
    {
        let mut at: usize = 0;
        while at < self.frames.len()
            invariant
                at <= self.frames.len(),
                forall|i: int| 0 <= i < at ==> !(#[trigger] self@[i]).is_crash_entry(),
            decreases self.frames.len() - at,
        {
            if self.frames[at].is_crash_entry() {
                assert(self@[at as int].is_crash_entry());
                return true;
            }
            at = at + 1;
        }
        false
    }

    /// The thread's stack written out, one line for each frame, innermost
    /// first.
    pub fn trace(&self) -> (text: String)
        ensures
            text@ == trace_text(self@),
    {
        let mut text = String::new();
        let ghost lines = trace_lines(self@);
        let mut at: usize = 0;
        while at < self.frames.len()
            invariant
                at <= self.frames.len(),
                lines == trace_lines(self@),
                lines.len() == self.frames.len(),
                text@ == glued(lines.take(at as int), seq!['\n']),
            decreases self.frames.len() - at,
        {
            if at > 0 {
                text.append("\n");
            }
            let line = self.frames[at].line();
            text.append(line.as_str());
            proof {
                reveal_strlit("\n");
                assert("\n"@ =~= seq!['\n']);
                assert(lines.take(at + 1).drop_last() =~= lines.take(at as int));
                assert(lines.take(at + 1).last() == self@[at as int].line());
            }
            at = at + 1;
        }
        proof {
            assert(lines.take(at as int) =~= lines);
        }
        text
    }
}

impl ProcessState {
    /// The index of the thread that crashed: the first whose stack holds
    /// the crash entry. What the platform says about the crashing thread
    /// plays no part.
    pub fn crashing_thread(&self) -> (found: Option<usize>)
        ensures
            match found {
                Some(index) => crashing_thread(self@) == Some(index as int)
                    && is_crashing_thread(self@, index as int),
                None => crashing_thread(self@) is None && forall|i: int|
                    0 <= i < self@.len() ==> !holds_crash_entry(#[trigger] self@[i]),
            },
    {
        let mut at: usize = 0;
        while at < self.threads.len()
            invariant
                at <= self.threads.len(),
                forall|i: int| 0 <= i < at ==> !holds_crash_entry(#[trigger] self@[i]),
            decreases self.threads.len() - at,
        {
            if self.threads[at].holds_crash_entry() {
                proof {
                    assert(self@[at as int] == self.threads[at as int]@);
                    lemma_crashing_thread_is_unique(self@, at as int);
                }
                return Some(at);
            }
            at = at + 1;
        }
        proof {
            lemma_crashing_thread(self@);
        }
        None
    }
}

} // verus!
