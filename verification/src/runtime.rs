//! What is handed to the container runtime to launch the isolated instance
//! of one execution, and what is read from its answers.

use std::io::Error as IoError;
use vstd::prelude::*;
use vstd::string::StringExecFns;
use vstd::utf8::{decode_utf8, valid_utf8};
use crate::sandbox::vec_to_str;
use crate::supervisor::Event;
use crate::text::{
    chars_of, is_numeral, line_ranges, lines, numeral_value, pieces, read_numeral, text_of,
    texts, trim_range, trimmed, within,
};
use crate::util::{BuildMode, CrateType, Edition, RustChannel};

verus! {

/// What the instance is launched to do.
#[derive(Debug, Clone, Copy, PartialEq, Eq, Structural)]
pub enum Task {
    /// Build the submission.
    Compile,
    /// Build the submission and run it.
    Execute,
    /// Run the selected tool on the submission.
    RunTool,
    /// List the dependencies that are resolved for the submission.
    ResolveDependencies,
    /// Print the version banner.
    QueryVersion,
}

impl Task {
    /// The word that tells the instance what to do.
    pub open spec fn spec_str(&self) -> Seq<char> {
        match self {
            Task::Compile => "compile"@,
            Task::Execute => "execute"@,
            Task::RunTool => "tool"@,
            Task::ResolveDependencies => "dependencies"@,
            Task::QueryVersion => "version"@,
        }
    }

    /// Whether the instance may write the source back: a tool that is run
    /// on the submission may, every other task only reads it.
    pub open spec fn spec_writes_back(&self) -> bool {
        self is RunTool
    }

    /// The word that tells the instance what to do.
    pub fn as_str(&self) -> (r: &'static str)
        ensures
            r@ == self.spec_str(),
    {
        match self {
            Task::Compile => "compile",
            Task::Execute => "execute",
            Task::RunTool => "tool",
            Task::ResolveDependencies => "dependencies",
            Task::QueryVersion => "version",
        }
    }

    /// Whether the instance may write the source back.
    pub fn writes_back(&self) -> (r: bool)
        ensures
            r == self.spec_writes_back(),
    {
        match self {
            Task::RunTool => true,
            _ => false,
        }
    }

    /// The permission bits of the source file: readable by everyone, and
    /// writable by everyone where the source may be written back.
    pub fn source_permissions(&self) -> (r: u32)
        ensures
            r == if self.spec_writes_back() {
                0o666u32
            } else {
                0o444u32
            },
    {
        if self.writes_back() {
            0o666
        } else {
            0o444
        }
    }
}

/// One submission: the configuration, the tool whose image is used in place
/// of the channel's, if any, and the source text.
#[derive(Debug, Clone)]
pub struct ExecutionRequest {
    pub channel: RustChannel,
    pub edition: Edition,
    pub crate_type: CrateType,
    pub mode: BuildMode,
    pub tool: Option<String>,
    pub source: String,
}

impl ExecutionRequest {
    /// The image that runs this request: the tool's image where a tool is
    /// selected, else the image of the channel.
    pub open spec fn spec_image(&self, repository: Seq<char>) -> Seq<char> {
        match self.tool {
            Some(tool) => repository + "/"@ + tool@,
            None => repository + "/rust-"@ + self.channel.spec_str(),
        }
    }

    /// How the input directory is mounted: read-only unless the source may
    /// be written back.
    pub open spec fn spec_input_mount(task: Task, input_dir: Seq<char>) -> Seq<char> {
        if task.spec_writes_back() {
            input_dir + ":/playground/input"@
        } else {
            input_dir + ":/playground/input"@ + ":ro"@
        }
    }

    /// The arguments of the launch: a detached run without network, with
    /// bounded memory and processors, as an unprivileged user, with the two
    /// directories of the workspace mounted; then the image, the word of
    /// the task, and the flags that the build takes.
    pub open spec fn spec_launch_arguments(
        &self,
        task: Task,
        repository: Seq<char>,
        input_dir: Seq<char>,
        output_dir: Seq<char>,
    ) -> Seq<Seq<char>> {
        seq![
            "run"@,
            "--detach"@,
            "--network"@,
            "none"@,
            "--memory"@,
            "512m"@,
            "--cpus"@,
            "1"@,
            "--user"@,
            "nobody"@,
            "--volume"@,
            Self::spec_input_mount(task, input_dir),
            "--volume"@,
            output_dir + ":/playground/output"@,
            self.spec_image(repository),
            task.spec_str(),
            "--edition"@,
            self.edition.spec_str(),
            "--crate-type"@,
            self.crate_type.spec_str(),
            "--mode"@,
            self.mode.spec_str(),
        ]
    }

    /// The name of the image that runs this request, in `repository`.
    pub fn image(&self, repository: &str) -> (r: String)
        ensures
            r@ == self.spec_image(repository@),
    {
        let mut name = repository.to_owned();
        match &self.tool {
            Some(tool) => {
                name.append("/");
                name.append(tool.as_str());
            },
            None => {
                name.append("/rust-");
                name.append(self.channel.as_str());
            },
        }
        name
    }

    /// The arguments with which the container runtime launches the instance
    /// of this request for `task`.
    pub fn launch_arguments(
        &self,
        task: Task,
        repository: &str,
        input_dir: &str,
        output_dir: &str,
    ) -> (r: Vec<String>)
        ensures
            texts(r@) == self.spec_launch_arguments(task, repository@, input_dir@, output_dir@),
    {
        let mut input_mount = input_dir.to_owned();
        input_mount.append(":/playground/input");
        if !task.writes_back() {
            input_mount.append(":ro");
        }
        let mut output_mount = output_dir.to_owned();
        output_mount.append(":/playground/output");
        let mut arguments: Vec<String> = Vec::new();
        arguments.push("run".to_owned());
        arguments.push("--detach".to_owned());
        arguments.push("--network".to_owned());
        arguments.push("none".to_owned());
        arguments.push("--memory".to_owned());
        arguments.push("512m".to_owned());
        arguments.push("--cpus".to_owned());
        arguments.push("1".to_owned());
        arguments.push("--user".to_owned());
        arguments.push("nobody".to_owned());
        arguments.push("--volume".to_owned());
        arguments.push(input_mount);
        arguments.push("--volume".to_owned());
        arguments.push(output_mount);
        arguments.push(self.image(repository));
        arguments.push(task.as_str().to_owned());
        arguments.push("--edition".to_owned());
        arguments.push(self.edition.to_string());
        arguments.push("--crate-type".to_owned());
        arguments.push(self.crate_type.to_string());
        arguments.push("--mode".to_owned());
        arguments.push(self.mode.to_string());
        assert(texts(arguments@) =~= self.spec_launch_arguments(
            task,
            repository@,
            input_dir@,
            output_dir@,
        ));
        arguments
    }
}

/// The permission bits of the output directory: everyone may read, write
/// and enter it.
pub fn output_permissions() -> (r: u32)
    ensures
        r == 0o777u32,
{
    0o777
}

/// The identifier that a launch printed: its first line without the blank
/// characters around it, unless nothing is left of it.
pub open spec fn spec_compiler_id(output: Seq<char>) -> Option<Seq<char>> {
    if lines(output).len() > 0 && trimmed(lines(output)[0]).len() > 0 {
        Some(trimmed(lines(output)[0]))
    } else {
        None
    }
}

/// The identifier of the instance, read from what the launch printed.
pub fn compiler_id(output: &str) -> (r: Option<String>)
    ensures
        match spec_compiler_id(output@) {
            Some(id) => r matches Some(found) && found@ == id,
            None => r is None,
        },
{
    let chars = chars_of(output);
    let ranges = line_ranges(&chars);
    if ranges.len() == 0 {
        return None;
    }
    let (lo, hi) = ranges[0];
    assert(within(ranges@[0], chars@.len()));
    assert(pieces(chars@, ranges@)[0] == chars@.subrange(lo as int, hi as int));
    let (a, b) = trim_range(&chars, lo, hi);
    if a < b {
        Some(text_of(&chars, a, b))
    } else {
        None
    }
}

/// What a command of the container runtime came to, once it had run: whether
/// it reported success, and what it printed.
#[derive(Debug)]
pub struct Printed {
    pub success: bool,
    pub stdout: Vec<u8>,
    pub stderr: Vec<u8>,
}

/// `std::io::Error::new` with the kind `Other`: an error that carries
/// `message`. Nothing is claimed of the error.
#[verifier::external_body]
fn refusal(message: String) -> IoError {
    IoError::new(std::io::ErrorKind::Other, message)
}

/// The failure of a command that ran and did not report success: an error
/// with what the command printed as its complaint.
fn refused(stderr: Vec<u8>) -> IoError {
    match vec_to_str(stderr) {
        Ok(complaint) => refusal(complaint),
        Err(_) => refusal("the command failed".to_owned()),
    }
}

/// The identifier that launch output holds, if the output is UTF-8.
pub open spec fn spec_launched_id(stdout: Seq<u8>) -> Option<Seq<char>> {
    if valid_utf8(stdout) {
        spec_compiler_id(decode_utf8(stdout))
    } else {
        None
    }
}

/// The event that reports a launch command which ran: a failure where it did
/// not report success; else the identifier found in what it printed, and
/// none where there is none.
pub fn launched(printed: Printed) -> (r: Event)
    ensures
        !printed.success ==> r is Failed,
        printed.success ==> (r matches Event::Launched(found) && match spec_launched_id(
            printed.stdout@,
        ) {
            Some(id) => found matches Some(handle) && handle@ == id,
            None => found is None,
        }),
{
    if !printed.success {
        return Event::Failed(refused(printed.stderr));
    }
    match vec_to_str(printed.stdout) {
        Ok(text) => Event::Launched(compiler_id(text.as_str())),
        Err(_) => Event::Launched(None),
    }
}

/// The status that a wait printed: the number on its first line, if that
/// line is a decimal numeral, blank characters around it aside, of a number
/// that an `i32` holds.
pub open spec fn spec_exit_status(output: Seq<char>) -> Option<i32> {
    if lines(output).len() > 0 && is_numeral(trimmed(lines(output)[0])) && numeral_value(
        trimmed(lines(output)[0]),
    ) <= i32::MAX {
        Some(numeral_value(trimmed(lines(output)[0])) as i32)
    } else {
        None
    }
}

/// The status with which the instance exited, read from what the wait
/// printed.
pub fn exit_status(output: &str) -> (r: Option<i32>)
    ensures
        r == spec_exit_status(output@),
{
    let chars = chars_of(output);
    let ranges = line_ranges(&chars);
    if ranges.len() == 0 {
        return None;
    }
    let (lo, hi) = ranges[0];
    assert(within(ranges@[0], chars@.len()));
    assert(pieces(chars@, ranges@)[0] == chars@.subrange(lo as int, hi as int));
    let (a, b) = trim_range(&chars, lo, hi);
    match read_numeral(&chars, a, b, 0x7fff_ffff) {
        Some(value) => Some(value as i32),
        None => None,
    }
}

/// The status that wait output holds, if the output is UTF-8.
pub open spec fn spec_exited_status(stdout: Seq<u8>) -> Option<i32> {
    if valid_utf8(stdout) {
        spec_exit_status(decode_utf8(stdout))
    } else {
        None
    }
}

/// The event that reports a wait command which ran: a failure where it did
/// not report success; else the completion of the instance, with the
/// status found in what the wait printed.
pub fn exited(printed: Printed) -> (r: Event)
    ensures
        !printed.success ==> r is Failed,
        printed.success ==> r == Event::Exited(spec_exited_status(printed.stdout@)),
{
    if !printed.success {
        return Event::Failed(refused(printed.stderr));
    }
    match vec_to_str(printed.stdout) {
        Ok(text) => Event::Exited(exit_status(text.as_str())),
        Err(_) => Event::Exited(None),
    }
}

/// The event that reports a retrieval command which ran: a failure where it
/// did not report success; else the captured output, which is what the
/// instance wrote to its standard output followed by what it wrote to its
/// standard error.
pub fn collected(printed: Printed) -> (r: Event)
    ensures
        !printed.success ==> r is Failed,
        printed.success ==> (r matches Event::Collected(output) && output@ == printed.stdout@
            + printed.stderr@),
{
    if !printed.success {
        return Event::Failed(refused(printed.stderr));
    }
    let mut output = printed.stdout;
    let mut rest = printed.stderr;
    output.append(&mut rest);
    Event::Collected(output)
}

/// The event that reports a removal command which ran: success or failure,
/// as the command reported it.
pub fn removed(printed: Printed) -> (r: Event)
    ensures
        !printed.success ==> r is Failed,
        printed.success ==> r == Event::Succeeded,
{
    if !printed.success {
        return Event::Failed(refused(printed.stderr));
    }
    Event::Succeeded
}

} // verus!
