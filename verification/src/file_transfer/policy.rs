//! The default transfer policy: a size cap and blocked executable extensions.
use vstd::prelude::*;
use crate::text::{chars_of, ends_with_chars, ends_with_spec, lowercase, string_from_str, to_lowercase};
use crate::file_transfer::traits::TransferPolicy;

verus! {

pub struct SecureTransferPolicy {
    pub max_file_size: u64,
    pub blocked_extensions: Vec<String>,
}

impl SecureTransferPolicy {
    /// 100 MiB cap; `.sh`, `.exe`, `.bin`, `.elf` and `.bat` blocked.
    pub fn new_default() -> (p: SecureTransferPolicy)
        ensures
            p.max_file_size == 100 * 1024 * 1024,
            p.blocked_extensions@.map_values(|s: String| s@) == seq![".sh"@, ".exe"@, ".bin"@, ".elf"@, ".bat"@],
    {
        let mut b: Vec<String> = Vec::new();
        b.push(string_from_str(".sh"));
        b.push(string_from_str(".exe"));
        b.push(string_from_str(".bin"));
        b.push(string_from_str(".elf"));
        b.push(string_from_str(".bat"));
        assert(b@.map_values(|s: String| s@) =~= seq![".sh"@, ".exe"@, ".bin"@, ".elf"@, ".bat"@]);
        SecureTransferPolicy { max_file_size: 100 * 1024 * 1024, blocked_extensions: b }
    }
}

impl TransferPolicy for SecureTransferPolicy {
    /// Within the size cap, and the lower-cased name ends with no blocked
    /// extension.
    open spec fn allows(&self, file_name: Seq<char>, size: u64) -> bool {
        size <= self.max_file_size
            && forall|i: int| 0 <= i < self.blocked_extensions@.len()
                ==> !ends_with_spec(lowercase(file_name), #[trigger] self.blocked_extensions@[i]@)
    }

    fn is_allowed(&self, file_name: &str, size: u64) -> (r: bool) {
        if size > self.max_file_size {
            return false;
        }
        let lower = to_lowercase(file_name);
        let lc = chars_of(lower.as_str());
        let mut i: usize = 0;
        while i < self.blocked_extensions.len()
            invariant
                lc@ == lowercase(file_name@),
                i <= self.blocked_extensions@.len(),
                forall|j: int| 0 <= j < i ==> !ends_with_spec(lowercase(file_name@), #[trigger] self.blocked_extensions@[j]@),
            decreases self.blocked_extensions.len() - i,
        {
            let ext = chars_of(self.blocked_extensions[i].as_str());
            if ends_with_chars(&lc, &ext) {
                return false;
            }
            i = i + 1;
        }
        true
    }

    /// Transferred files are never made executable.
    fn allow_execution(&self) -> (r: bool)
        ensures
            !r,
    {
        false
    }
}

/// A file whose lower-cased name ends with any of the policy's blocked
/// extensions is refused, whatever its size; so is a file over the size cap.
pub proof fn lemma_blocked_extensions_refused(p: SecureTransferPolicy, name: Seq<char>, size: u64, i: int)
    requires
        0 <= i < p.blocked_extensions@.len(),
    ensures
        ends_with_spec(lowercase(name), p.blocked_extensions@[i]@) ==> !p.allows(name, size),
        size > p.max_file_size ==> !p.allows(name, size),
{
}

/// A file within the size cap whose lower-cased name ends with none of the
/// blocked extensions is allowed.
pub proof fn lemma_other_files_allowed(p: SecureTransferPolicy, name: Seq<char>, size: u64)
    requires
        size <= p.max_file_size,
        forall|i: int| 0 <= i < p.blocked_extensions@.len() ==> !ends_with_spec(lowercase(name), p.blocked_extensions@[i]@),
    ensures
        p.allows(name, size),
{
}

/// The default policy refuses shell scripts, executables, binaries, ELF files
/// and batch files, whatever their size, and anything over 100 MiB.
pub proof fn lemma_default_blocks_executables(p: SecureTransferPolicy, name: Seq<char>, size: u64)
    requires
        p.max_file_size == 100 * 1024 * 1024,
        p.blocked_extensions@.map_values(|s: String| s@) == seq![".sh"@, ".exe"@, ".bin"@, ".elf"@, ".bat"@],
    ensures
        ({
            let l = lowercase(name);
            ends_with_spec(l, ".sh"@) || ends_with_spec(l, ".exe"@) || ends_with_spec(l, ".bin"@)
                || ends_with_spec(l, ".elf"@) || ends_with_spec(l, ".bat"@)
        }) ==> !p.allows(name, size),
        size > 100 * 1024 * 1024 ==> !p.allows(name, size),
{
    let b = p.blocked_extensions@;
    let m = b.map_values(|s: String| s@);
    assert(m.len() == b.len());
    assert(m.len() == 5);
    assert(b[0]@ == m[0]);
    assert(b[1]@ == m[1]);
    assert(b[2]@ == m[2]);
    assert(b[3]@ == m[3]);
    assert(b[4]@ == m[4]);
}

}
