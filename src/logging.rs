use crate::text::{decimal, decimal_text};
use vstd::prelude::*;
use vstd::string::StringExecFns;

verus! {

/// The layout of access-log lines.
#[derive(Clone, Copy, Debug, PartialEq, Eq, Structural)]
pub enum AccessLogFormat {
    Json,
    CommonLog,
    Combined,
}

impl AccessLogFormat {
    /// `json` and `common` name their layouts; any other name means `Combined`.
    pub fn from_name(name: &str) -> (r: Self)
        ensures
            r == if name@ == "json"@ {
                AccessLogFormat::Json
            } else if name@ == "common"@ {
                AccessLogFormat::CommonLog
            } else {
                AccessLogFormat::Combined
            },
    {
        let n = name.to_string();
        if n == "json".to_string() {
            AccessLogFormat::Json
        } else if n == "common".to_string() {
            AccessLogFormat::CommonLog
        } else {
            AccessLogFormat::Combined
        }
    }
}

/// Size-based rotation of a log file into numbered copies.
#[derive(Debug)]
pub struct LogRotator {
    pub base_path: String,
    pub max_size: u64,
    pub max_files: usize,
}

/// The name of copy `i` of the log at `base`.
pub open spec fn numbered(base: Seq<char>, i: nat) -> Seq<char> {
    base + "."@ + decimal(i)
}

impl LogRotator {
    pub fn new(base_path: String, max_size: u64, max_files: usize) -> (r: Self)
        ensures
            r.base_path == base_path,
            r.max_size == max_size,
            r.max_files == max_files,
    {
        LogRotator { base_path, max_size, max_files }
    }

    /// A log of `size` bytes is rotated once it exceeds the maximum.
    pub fn should_rotate(&self, size: u64) -> (r: bool)
        ensures
            r == (size > self.max_size),
    {
        size > self.max_size
    }

    fn numbered_path(&self, i: usize) -> (r: String)
        ensures
            r@ == numbered(self.base_path@, i as nat),
    {
        let mut p = self.base_path.clone();
        p.append(".");
        let n = decimal_text(i as u64);
        p.append(n.as_str());
        p
    }

    /// The renames of one rotation, in the order they are made: copy `i` becomes
    /// copy `i + 1` from the oldest kept copy down to the first, then the log
    /// itself becomes copy 1. A rename whose source is missing is skipped.
    pub fn rotation_moves(&self) -> (r: Vec<(String, String)>)
        requires
            self.max_files < usize::MAX,
        ensures
            r@.len() == if self.max_files > 0 {
                self.max_files as int
            } else {
                1
            },
            forall|k: int|
                0 <= k < r@.len() - 1 ==> {
                    let i = self.max_files - 1 - k;
                    &&& (#[trigger] r@[k]).0@ == numbered(self.base_path@, i as nat)
                    &&& r@[k].1@ == numbered(self.base_path@, (i + 1) as nat)
                },
            r@.last().0@ == self.base_path@,
            r@.last().1@ == numbered(self.base_path@, 1),
    {
        let mut r: Vec<(String, String)> = Vec::new();
        let mut i: usize = if self.max_files > 0 {
            self.max_files - 1
        } else {
            0
        };
        while i >= 1
            invariant
                self.max_files < usize::MAX,
                i < self.max_files || i == 0,
                r@.len() == if self.max_files > 0 {
                    self.max_files - 1 - i
                } else {
                    0
                },
                forall|k: int|
                    0 <= k < r@.len() ==> {
                        let j = self.max_files - 1 - k;
                        &&& (#[trigger] r@[k]).0@ == numbered(self.base_path@, j as nat)
                        &&& r@[k].1@ == numbered(self.base_path@, (j + 1) as nat)
                    },
            decreases i,
        {
            r.push((self.numbered_path(i), self.numbered_path(i + 1)));
            i -= 1;
        }
        r.push((self.base_path.clone(), self.numbered_path(1)));
        r
    }
}

} // verus!
