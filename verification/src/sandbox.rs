//! The error taxonomy of the engine, the records it hands back, and the
//! strict decoding of captured bytes.

use std::io::Error as IoError;
use std::string::FromUtf8Error;
use std::time::Duration;
use tokio::time::error::Elapsed;
use vstd::prelude::*;
use vstd::string::{to_string_from_display_ensures, StringExecFns};
use vstd::utf8::{
    decode_utf8, is_continuation_byte, partial_valid_partial_invalid_utf8, valid_utf8,
};
use crate::text::{decimal, decimal_text};

verus! {

/// `std::io::Error`, carried through as the cause of a failed operation.
#[verifier::external_type_specification]
#[verifier::external_body]
pub struct ExIoError(std::io::Error);

/// `std::string::FromUtf8Error`, what `String::from_utf8` returns for bytes
/// that are not UTF-8.
#[verifier::external_type_specification]
#[verifier::external_body]
pub struct ExFromUtf8Error(std::string::FromUtf8Error);

/// `serde_json::Error`, what `serde_json` returns for text it cannot decode.
#[verifier::external_type_specification]
#[verifier::external_body]
pub struct ExJsonError(serde_json::Error);

/// `tokio::time::error::Elapsed`, what `tokio::time::timeout` returns when
/// the deadline passes first.
#[verifier::external_type_specification]
#[verifier::external_body]
pub struct ExElapsed(tokio::time::error::Elapsed);

/// `String::from_utf8` of the standard library: it succeeds exactly on valid
/// UTF-8, and the string then holds the characters that the bytes encode.
pub assume_specification[ String::from_utf8 ](vec: Vec<u8>) -> (r: Result<String, FromUtf8Error>)
    ensures
        r is Ok <==> valid_utf8(vec@),
        r matches Ok(s) ==> s@ == decode_utf8(vec@),
;

/// `Duration::as_millis` of the standard library: the whole milliseconds of
/// the duration. Nothing is claimed of the number.
pub assume_specification[ Duration::as_millis ](d: &Duration) -> (r: u128)
;

/// Every way in which the engine itself can fail, one variant per failure
/// point. Variants backed by an outside failure keep it as their payload.
#[derive(Debug)]
pub enum SandboxError {
    UnableToCreateTempDir(IoError),
    UnableToCreateOutputDir(IoError),
    UnableToSetOutputPermissions(IoError),
    UnableToCreateSourceFile(IoError),
    UnableToSetSourcePermissions(IoError),
    UnableToStartCompiler(IoError),
    MissingCompilerId,
    UnableToWaitForCompiler(IoError),
    UnableToGetOutputFromCompiler(IoError),
    UnableToRemoveCompiler(IoError),
    CompilerExecutionTimeout(Elapsed, Duration),
    UnableToReadOutput(IoError),
    UnableToParseCrateInformation(serde_json::Error),
    OutputNotUtf8(FromUtf8Error),
    OutputMissing,
    VersionReleaseMissing,
    VersionHashMissing,
    VersionDateMissing,
}

/// The underlying failure that an error reports as its cause.
#[derive(Debug)]
pub enum Cause<'a> {
    Io(&'a IoError),
    Elapsed(&'a Elapsed),
    Json(&'a serde_json::Error),
    Utf8(&'a FromUtf8Error),
}

impl SandboxError {
    /// The fixed text with which the message of this error begins.
    pub open spec fn spec_headline(&self) -> Seq<char> {
        match self {
            SandboxError::UnableToCreateTempDir(_) => "unable to create temporary directory: "@,
            SandboxError::UnableToCreateOutputDir(_) => "unable to create output directory: "@,
            SandboxError::UnableToSetOutputPermissions(_) =>
                "unable to set permissions for output directory: "@,
            SandboxError::UnableToCreateSourceFile(_) => "unable to create the source file: "@,
            SandboxError::UnableToSetSourcePermissions(_) => "unable to set source permissions: "@,
            SandboxError::UnableToStartCompiler(_) => "unable to start compiler: "@,
            SandboxError::MissingCompilerId => "unable to find compiler ID"@,
            SandboxError::UnableToWaitForCompiler(_) => "unable to wait for the compiler: "@,
            SandboxError::UnableToGetOutputFromCompiler(_) =>
                "unable to get output from the compiler"@,
            SandboxError::UnableToRemoveCompiler(_) => "unable to remove the compiler: "@,
            SandboxError::CompilerExecutionTimeout(_, _) => "compiler execution took longer than "@,
            SandboxError::UnableToReadOutput(_) => "unable to read output file: "@,
            SandboxError::UnableToParseCrateInformation(_) =>
                "unable to parse crate information: "@,
            SandboxError::OutputNotUtf8(_) => "output was not valid utf-8: "@,
            SandboxError::OutputMissing => "output was missing"@,
            SandboxError::VersionReleaseMissing => "release was missing from the version output"@,
            SandboxError::VersionHashMissing => "commit hash was missing from the version output"@,
            SandboxError::VersionDateMissing => "commit date was missing from the version output"@,
        }
    }

    /// Whether the message of this error is its headline alone.
    pub open spec fn spec_is_plain(&self) -> bool {
        match self {
            SandboxError::MissingCompilerId
            | SandboxError::OutputMissing
            | SandboxError::VersionReleaseMissing
            | SandboxError::VersionHashMissing
            | SandboxError::VersionDateMissing => true,
            _ => false,
        }
    }

    /// The message of this error when `detail` is the text of its payload:
    /// the text of the outside failure, or for a timeout the limit in
    /// milliseconds. An error without payload ignores `detail`.
    pub open spec fn spec_message(&self, detail: Seq<char>) -> Seq<char> {
        if self.spec_is_plain() {
            self.spec_headline()
        } else if self is CompilerExecutionTimeout {
            self.spec_headline() + detail + " ms"@
        } else {
            self.spec_headline() + detail
        }
    }

    /// Whether `text` is the message of this error when `cause` is the
    /// input/output failure that it carries: the headline, then the text
    /// that the failure displays.
    pub open spec fn spec_shows_io(&self, cause: &IoError, text: Seq<char>) -> bool {
        exists|shown: String| #[trigger]
            to_string_from_display_ensures::<IoError>(cause, shown) && text == self.spec_message(
                shown@,
            )
    }

    /// Whether `text` is the message of this error when `cause` is the
    /// decoder's failure that it carries.
    pub open spec fn spec_shows_json(&self, cause: &serde_json::Error, text: Seq<char>) -> bool {
        exists|shown: String| #[trigger]
            to_string_from_display_ensures::<serde_json::Error>(cause, shown) && text
                == self.spec_message(shown@)
    }

    /// Whether `text` is the message of this error when `cause` is the
    /// UTF-8 failure that it carries.
    pub open spec fn spec_shows_utf8(&self, cause: &FromUtf8Error, text: Seq<char>) -> bool {
        exists|shown: String| #[trigger]
            to_string_from_display_ensures::<FromUtf8Error>(cause, shown) && text
                == self.spec_message(shown@)
    }

    /// Whether `text` is the message of this error: the headline alone for
    /// an error without payload; the headline and what the carried failure
    /// displays for an error with a cause; and for a timeout the headline, a
    /// decimal numeral and the unit.
    pub open spec fn spec_describes(&self, text: Seq<char>) -> bool {
        match self {
            SandboxError::UnableToCreateTempDir(e) => self.spec_shows_io(e, text),
            SandboxError::UnableToCreateOutputDir(e) => self.spec_shows_io(e, text),
            SandboxError::UnableToSetOutputPermissions(e) => self.spec_shows_io(e, text),
            SandboxError::UnableToCreateSourceFile(e) => self.spec_shows_io(e, text),
            SandboxError::UnableToSetSourcePermissions(e) => self.spec_shows_io(e, text),
            SandboxError::UnableToStartCompiler(e) => self.spec_shows_io(e, text),
            SandboxError::UnableToWaitForCompiler(e) => self.spec_shows_io(e, text),
            SandboxError::UnableToGetOutputFromCompiler(e) => self.spec_shows_io(e, text),
            SandboxError::UnableToRemoveCompiler(e) => self.spec_shows_io(e, text),
            SandboxError::UnableToReadOutput(e) => self.spec_shows_io(e, text),
            SandboxError::UnableToParseCrateInformation(e) => self.spec_shows_json(e, text),
            SandboxError::OutputNotUtf8(e) => self.spec_shows_utf8(e, text),
            SandboxError::CompilerExecutionTimeout(_, _) => exists|millis: u128|
                text == self.spec_message(#[trigger] decimal(millis as nat)),
            SandboxError::MissingCompilerId
            | SandboxError::OutputMissing
            | SandboxError::VersionReleaseMissing
            | SandboxError::VersionHashMissing
            | SandboxError::VersionDateMissing => text == self.spec_headline(),
        }
    }

    /// The cause that this error reports: the outside failure that it
    /// carries. Only an error without payload reports none.
    pub open spec fn spec_source(&self) -> Option<Cause<'_>> {
        match self {
            SandboxError::UnableToCreateTempDir(e)
            | SandboxError::UnableToCreateOutputDir(e)
            | SandboxError::UnableToSetOutputPermissions(e)
            | SandboxError::UnableToCreateSourceFile(e)
            | SandboxError::UnableToSetSourcePermissions(e)
            | SandboxError::UnableToStartCompiler(e)
            | SandboxError::UnableToWaitForCompiler(e)
            | SandboxError::UnableToGetOutputFromCompiler(e)
            | SandboxError::UnableToRemoveCompiler(e)
            | SandboxError::UnableToReadOutput(e) => Some(Cause::Io(e)),
            SandboxError::CompilerExecutionTimeout(e, _) => Some(Cause::Elapsed(e)),
            SandboxError::UnableToParseCrateInformation(e) => Some(Cause::Json(e)),
            SandboxError::OutputNotUtf8(e) => Some(Cause::Utf8(e)),
            SandboxError::MissingCompilerId
            | SandboxError::OutputMissing
            | SandboxError::VersionReleaseMissing
            | SandboxError::VersionHashMissing
            | SandboxError::VersionDateMissing => None,
        }
    }

    /// The fixed text with which the message of this error begins.
    pub fn headline(&self) -> (r: &'static str)
        ensures
            r@ == self.spec_headline(),
    {
        match self {
            SandboxError::UnableToCreateTempDir(_) => "unable to create temporary directory: ",
            SandboxError::UnableToCreateOutputDir(_) => "unable to create output directory: ",
            SandboxError::UnableToSetOutputPermissions(_) =>
                "unable to set permissions for output directory: ",
            SandboxError::UnableToCreateSourceFile(_) => "unable to create the source file: ",
            SandboxError::UnableToSetSourcePermissions(_) => "unable to set source permissions: ",
            SandboxError::UnableToStartCompiler(_) => "unable to start compiler: ",
            SandboxError::MissingCompilerId => "unable to find compiler ID",
            SandboxError::UnableToWaitForCompiler(_) => "unable to wait for the compiler: ",
            SandboxError::UnableToGetOutputFromCompiler(_) =>
                "unable to get output from the compiler",
            SandboxError::UnableToRemoveCompiler(_) => "unable to remove the compiler: ",
            SandboxError::CompilerExecutionTimeout(_, _) => "compiler execution took longer than ",
            SandboxError::UnableToReadOutput(_) => "unable to read output file: ",
            SandboxError::UnableToParseCrateInformation(_) => "unable to parse crate information: ",
            SandboxError::OutputNotUtf8(_) => "output was not valid utf-8: ",
            SandboxError::OutputMissing => "output was missing",
            SandboxError::VersionReleaseMissing => "release was missing from the version output",
            SandboxError::VersionHashMissing => "commit hash was missing from the version output",
            SandboxError::VersionDateMissing => "commit date was missing from the version output",
        }
    }

    /// The message of this error, given the text of its payload.
    pub fn message(&self, detail: &str) -> (r: String)
        ensures
            r@ == self.spec_message(detail@),
    {
        let mut out = self.headline().to_owned();
        match self {
            SandboxError::MissingCompilerId
            | SandboxError::OutputMissing
            | SandboxError::VersionReleaseMissing
            | SandboxError::VersionHashMissing
            | SandboxError::VersionDateMissing => {},
            SandboxError::CompilerExecutionTimeout(_, _) => {
                out.append(detail);
                out.append(" ms");
            },
            _ => {
                out.append(detail);
            },
        }
        out
    }

    /// The message of an error that carries an input/output failure.
    fn show_io(&self, cause: &IoError) -> (r: String)
        ensures
            self.spec_shows_io(cause, r@),
    {
        let shown = cause.to_string();
        self.message(shown.as_str())
    }

    /// The message of this error: its headline, followed by what the
    /// outside failure it carries displays, or for a timeout by the limit in
    /// milliseconds and the unit.
    pub fn to_string(&self) -> (r: String)
        ensures
            self.spec_describes(r@),
    {
        match self {
            SandboxError::UnableToCreateTempDir(e) => self.show_io(e),
            SandboxError::UnableToCreateOutputDir(e) => self.show_io(e),
            SandboxError::UnableToSetOutputPermissions(e) => self.show_io(e),
            SandboxError::UnableToCreateSourceFile(e) => self.show_io(e),
            SandboxError::UnableToSetSourcePermissions(e) => self.show_io(e),
            SandboxError::UnableToStartCompiler(e) => self.show_io(e),
            SandboxError::UnableToWaitForCompiler(e) => self.show_io(e),
            SandboxError::UnableToGetOutputFromCompiler(e) => self.show_io(e),
            SandboxError::UnableToRemoveCompiler(e) => self.show_io(e),
            SandboxError::UnableToReadOutput(e) => self.show_io(e),
            SandboxError::UnableToParseCrateInformation(e) => {
                let shown = e.to_string();
                self.message(shown.as_str())
            },
            SandboxError::OutputNotUtf8(e) => {
                let shown = e.to_string();
                self.message(shown.as_str())
            },
            SandboxError::CompilerExecutionTimeout(_, timeout) => {
                let millis: u128 = timeout.as_millis();
                let numeral = decimal_text(millis);
                self.message(numeral.as_str())
            },
            SandboxError::MissingCompilerId
            | SandboxError::OutputMissing
            | SandboxError::VersionReleaseMissing
            | SandboxError::VersionHashMissing
            | SandboxError::VersionDateMissing => self.message(""),
        }
    }

    /// The cause that this error reports: `None` exactly for an error
    /// without payload.
    pub fn source(&self) -> (r: Option<Cause<'_>>)
        ensures
            r == self.spec_source(),
            r is None <==> self.spec_is_plain(),
    {
        match self {
            SandboxError::UnableToCreateTempDir(e)
            | SandboxError::UnableToCreateOutputDir(e)
            | SandboxError::UnableToSetOutputPermissions(e)
            | SandboxError::UnableToCreateSourceFile(e)
            | SandboxError::UnableToSetSourcePermissions(e)
            | SandboxError::UnableToStartCompiler(e)
            | SandboxError::UnableToWaitForCompiler(e)
            | SandboxError::UnableToGetOutputFromCompiler(e)
            | SandboxError::UnableToRemoveCompiler(e)
            | SandboxError::UnableToReadOutput(e) => Some(Cause::Io(e)),
            SandboxError::CompilerExecutionTimeout(e, _) => Some(Cause::Elapsed(e)),
            SandboxError::UnableToParseCrateInformation(e) => Some(Cause::Json(e)),
            SandboxError::OutputNotUtf8(e) => Some(Cause::Utf8(e)),
            SandboxError::MissingCompilerId
            | SandboxError::OutputMissing
            | SandboxError::VersionReleaseMissing
            | SandboxError::VersionHashMissing
            | SandboxError::VersionDateMissing => None,
        }
    }
}

impl From<FromUtf8Error> for SandboxError {
    fn from(e: FromUtf8Error) -> (r: Self) {
        SandboxError::OutputNotUtf8(e)
    }
}

impl vstd::std_specs::convert::FromSpecImpl<FromUtf8Error> for SandboxError {
    open spec fn obeys_from_spec() -> bool {
        true
    }

    open spec fn from_spec(e: FromUtf8Error) -> Self {
        SandboxError::OutputNotUtf8(e)
    }
}

/// One resolved dependency.
#[derive(Debug, Clone)]
pub struct CrateInformation {
    pub name: String,
    pub version: String,
    pub id: String,
}

/// The characters of a [`CrateInformation`].
pub struct CrateInformationView {
    pub name: Seq<char>,
    pub version: Seq<char>,
    pub id: Seq<char>,
}

impl View for CrateInformation {
    type V = CrateInformationView;

    open spec fn view(&self) -> CrateInformationView {
        CrateInformationView { name: self.name@, version: self.version@, id: self.id@ }
    }
}

/// The version triple of a toolchain.
#[derive(Debug, Clone)]
pub struct Version {
    pub release: String,
    pub commit_hash: String,
    pub commit_date: String,
}

/// The characters of a [`Version`].
pub struct VersionView {
    pub release: Seq<char>,
    pub commit_hash: Seq<char>,
    pub commit_date: Seq<char>,
}

impl View for Version {
    type V = VersionView;

    open spec fn view(&self) -> VersionView {
        VersionView {
            release: self.release@,
            commit_hash: self.commit_hash@,
            commit_date: self.commit_date@,
        }
    }
}

/// Strict UTF-8 decoding of captured bytes: the text that the bytes encode,
/// or `OutputNotUtf8` with the decoder's failure, and never a part of the
/// text.
pub fn vec_to_str(v: Vec<u8>) -> (r: Result<String, SandboxError>)
    ensures
        r is Ok <==> valid_utf8(v@),
        r matches Ok(s) ==> s@ == decode_utf8(v@),
        r matches Err(e) ==> e is OutputNotUtf8,
{
    match String::from_utf8(v) {
        Ok(s) => Ok(s),
        Err(e) => Err(SandboxError::from(e)),
    }
}

/// The number of bytes of the sequence that `lead` opens: one for an ASCII
/// byte, up to four for a byte that announces continuation bytes, and none
/// for a byte that opens no sequence.
pub open spec fn sequence_width(lead: u8) -> int {
    if lead <= 0x7f {
        1
    } else if 0xc0 <= lead <= 0xdf {
        2
    } else if 0xe0 <= lead <= 0xef {
        3
    } else if 0xf0 <= lead <= 0xf7 {
        4
    } else {
        0
    }
}

/// Bytes with a broken continuation are not UTF-8, so `vec_to_str` rejects
/// them: after well-formed text a byte at `at` opens a sequence, and `k`
/// bytes on, where a continuation byte is due, the bytes end or hold
/// another byte.
pub proof fn lemma_broken_continuation_is_not_utf8(bytes: Seq<u8>, at: int, k: int)
    requires
        0 <= at < bytes.len(),
        valid_utf8(bytes.subrange(0, at)),
        1 <= k < sequence_width(bytes[at]),
        at + k >= bytes.len() || !is_continuation_byte(bytes[at + k]),
    ensures
        !valid_utf8(bytes),
{
    let rest = bytes.subrange(at, bytes.len() as int);
    assert(rest[0] == bytes[at]);
    if at + k < bytes.len() {
        assert(rest[k] == bytes[at + k]);
    }
    partial_valid_partial_invalid_utf8(bytes, at);
}

} // verus!
