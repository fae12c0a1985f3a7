//! Audio from a file, whose format is told by the name of the file.

use vstd::prelude::*;

use crate::error::Error;
use crate::source::AudioSource;

verus! {

/// The byte of a full stop.
pub const DOT: u8 = 0x2e;

/// The formats of audio files that can be played.
#[derive(Clone, Copy, Debug, PartialEq, Eq, Structural)]
pub enum FileFormat {
    Mp3,
}

/// Where the extension of a path begins: behind its last full stop. A
/// path without a full stop is all extension.
pub open spec fn extension_start(path: Seq<u8>) -> int
    decreases path.len(),
{
    if path.len() == 0 {
        0
    } else if path.last() == DOT {
        path.len() as int
    } else {
        extension_start(path.drop_last())
    }
}

/// The extension of a path: what follows its last full stop.
pub open spec fn extension(path: Seq<u8>) -> Seq<u8> {
    path.skip(extension_start(path))
}

/// The extension of MP3 files.
pub open spec fn mp3_extension() -> Seq<u8> {
    seq![0x6du8, 0x70u8, 0x33u8]
}

/// The extension begins at `start` if a full stop stands right before
/// `start`, or `start` is the beginning, and none follows.
proof fn lemma_extension_start(path: Seq<u8>, start: int)
    requires
        0 <= start <= path.len(),
        start == 0 || path[start - 1] == DOT,
        forall|j: int| start <= j < path.len() ==> path[j] != DOT,
    ensures
        extension_start(path) == start,
    decreases path.len(),
{
    if path.len() > 0 && path.last() != DOT {
        let shorter = path.drop_last();
        assert(start < path.len());
        assert forall|j: int| start <= j < shorter.len() implies shorter[j] != DOT by {
            assert(shorter[j] == path[j]);
        }
        if start > 0 {
            assert(shorter[start - 1] == path[start - 1]);
        }
        lemma_extension_start(shorter, start);
    }
}

impl FileFormat {
    /// Tells the format of a file by the extension of its path, given as
    /// the bytes of the path. A path with another extension than `mp3`
    /// is refused.
    pub fn from_path(path: &[u8]) -> (format: Result<FileFormat, Error>)
        ensures
            format is Ok <==> extension(path@) == mp3_extension(),
            format matches Ok(found) ==> found == FileFormat::Mp3,
            format matches Err(error) ==> error == Error::SourceConstructionFailed,
    {
        let len: usize = path.len();
        let mut start: usize = len;
        while start > 0 && path[start - 1] != DOT
            invariant
                start <= len,
                len == path@.len(),
                forall|j: int| start <= j < len ==> path@[j] != DOT,
            decreases start,
        {
            start -= 1;
        }
        proof {
            lemma_extension_start(path@, start as int);
        }
        let ghost ext = extension(path@);
        if len - start == 3 && path[start] == 0x6d && path[start + 1] == 0x70 && path[start + 2] == 0x33 {
            assert(ext =~= mp3_extension());
            Ok(FileFormat::Mp3)
        } else {
            proof {
                if ext == mp3_extension() {
                    assert(ext.len() == 3);
                    assert(ext[0] == 0x6du8 && ext[1] == 0x70u8 && ext[2] == 0x33u8);
                }
            }
            Err(Error::SourceConstructionFailed)
        }
    }
}

/// A source that plays a file and remembers the path it was made from.
pub struct FileSource<D> {
    wrapped: D,
    file_path: String,
}

impl<D: AudioSource> FileSource<D> {
    /// The decoder that the frames come from.
    pub closed spec fn decoder(&self) -> D {
        self.wrapped
    }

    /// The path of the file.
    pub closed spec fn path_spec(&self) -> Seq<char> {
        self.file_path@
    }

    /// A source that plays what `wrapped` decodes from the file at
    /// `file_path`.
    pub fn new(file_path: String, wrapped: D) -> (source: FileSource<D>)
        ensures
            source.decoder() == wrapped,
            source.path_spec() == file_path@,
    {
        FileSource { wrapped, file_path }
    }

    /// The path of the file.
    pub fn file_path(&self) -> (path: &str)
        ensures
            path@ == self.path_spec(),
    {
        self.file_path.as_str()
    }
}

impl<D: AudioSource> AudioSource for FileSource<D> {
    type Frame = D::Frame;

    open spec fn rate(&self) -> u32 {
        self.decoder().rate()
    }

    open spec fn exhausted(&self) -> bool {
        self.decoder().exhausted()
    }

    open spec fn pulls(&self, after: &Self, frame: D::Frame) -> bool {
        after.path_spec() == self.path_spec() && self.decoder().pulls(&after.decoder(), frame)
    }

    fn sample_hz(&self) -> (hz: u32) {
        self.wrapped.sample_hz()
    }

    fn next(&mut self) -> (frame: D::Frame) {
        self.wrapped.next()
    }

    fn is_exhausted(&self) -> (exhausted: bool) {
        self.wrapped.is_exhausted()
    }
}

} // verus!
