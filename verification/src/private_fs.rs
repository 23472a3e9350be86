//! Who may open the files and directories that hold secrets, and how such files are put in place.

use vstd::prelude::*;

verus! {

/// The kinds of system that guard files in different ways.
#[derive(Debug, Clone, Copy, PartialEq, Eq, Structural)]
pub enum Platform {
    Unix,
    Windows,
    Other,
}

/// How a file or directory is to be guarded.
#[derive(Debug, Clone, Copy)]
pub enum Restriction {
    /// By its permission bits.
    Mode(u32),
    /// By a protected access list, which takes nothing over from the directory above, written as a
    /// security descriptor text.
    Descriptor(&'static str),
    /// Not at all.
    Nothing,
}

/// What a restriction says.
pub enum RestrictionView {
    Mode(u32),
    Descriptor(Seq<char>),
    Nothing,
}

impl Restriction {
    pub open spec fn view(&self) -> RestrictionView {
        match self {
            Restriction::Mode(mode) => RestrictionView::Mode(*mode),
            Restriction::Descriptor(text) => RestrictionView::Descriptor(text@),
            Restriction::Nothing => RestrictionView::Nothing,
        }
    }
}

/// The guard of a file: its owner may read and write it, and on Windows the system too.
pub open spec fn file_restriction(platform: Platform) -> RestrictionView {
    match platform {
        Platform::Unix => RestrictionView::Mode(0o600),
        Platform::Windows => RestrictionView::Descriptor("D:P(A;;FA;;;OW)(A;;FA;;;SY)"@),
        Platform::Other => RestrictionView::Nothing,
    }
}

/// The guard of a directory: as that of a file, with the right to look for files in it, and on
/// Windows for all that comes to stand in it.
pub open spec fn dir_restriction(platform: Platform) -> RestrictionView {
    match platform {
        Platform::Unix => RestrictionView::Mode(0o700),
        Platform::Windows => RestrictionView::Descriptor("D:P(A;OICI;FA;;;OW)(A;OICI;FA;;;SY)"@),
        Platform::Other => RestrictionView::Nothing,
    }
}

/// How a file is kept from all but its owner and the system.
pub fn restrict_file(platform: Platform) -> (restriction: Restriction)
    ensures
        restriction@ == file_restriction(platform),
{
    match platform {
        Platform::Unix => Restriction::Mode(0o600),
        Platform::Windows => Restriction::Descriptor("D:P(A;;FA;;;OW)(A;;FA;;;SY)"),
        Platform::Other => Restriction::Nothing,
    }
}

/// How a directory, with what comes to stand in it, is kept from all but its owner and the system.
pub fn restrict_dir(platform: Platform) -> (restriction: Restriction)
    ensures
        restriction@ == dir_restriction(platform),
{
    match platform {
        Platform::Unix => Restriction::Mode(0o700),
        Platform::Windows => Restriction::Descriptor("D:P(A;OICI;FA;;;OW)(A;OICI;FA;;;SY)"),
        Platform::Other => Restriction::Nothing,
    }
}

/// On Unix neither the group nor others get any right to a file or a directory.
pub proof fn nothing_for_group_and_others(platform: Platform, mode: u32)
    requires
        file_restriction(platform) == RestrictionView::Mode(mode) || dir_restriction(platform)
            == RestrictionView::Mode(mode),
    ensures
        mode & 0o077 == 0,
{
    assert(0o600u32 & 0o077 == 0) by (bit_vector);
    assert(0o700u32 & 0o077 == 0) by (bit_vector);
}

/// One of the steps by which a file is put in its place, so that it never stands there half
/// written.
pub enum FileStep {
    /// Make the directory of the file, if it has one.
    CreateParent,
    /// Write to a file beside the one that is meant, with this extension.
    WriteTemporary { extension: String, contents: String },
    /// Set the permission bits of the temporary file.
    RestrictTemporary { mode: u32 },
    /// Give the temporary file the name of the one that is meant.
    RenameTemporary,
    /// Set the permission bits of the file.
    RestrictFile { mode: u32 },
}

/// What a step says.
pub enum FileStepView {
    CreateParent,
    WriteTemporary { extension: Seq<char>, contents: Seq<char> },
    RestrictTemporary { mode: u32 },
    RenameTemporary,
    RestrictFile { mode: u32 },
}

impl FileStep {
    pub open spec fn view(&self) -> FileStepView {
        match self {
            FileStep::CreateParent => FileStepView::CreateParent,
            FileStep::WriteTemporary { extension, contents } => FileStepView::WriteTemporary {
                extension: extension@,
                contents: contents@,
            },
            FileStep::RestrictTemporary { mode } => FileStepView::RestrictTemporary { mode: *mode },
            FileStep::RenameTemporary => FileStepView::RenameTemporary,
            FileStep::RestrictFile { mode } => FileStepView::RestrictFile { mode: *mode },
        }
    }
}

/// What steps say, one by one.
pub open spec fn steps_view(steps: Seq<FileStep>) -> Seq<FileStepView> {
    steps.map_values(|step: FileStep| step@)
}

}
