//! AppIDs of non-Steam shortcuts: the CRC-32 of the quoted executable path
//! followed by the app name, with the high bit set.

use vstd::prelude::*;
use vstd::utf8::encode_utf8;

verus! {

/// The CRC-32 checksum (IEEE polynomial) of `data`; what `crc32fast::hash`
/// returns.
pub uninterp spec fn crc32(data: Seq<u8>) -> u32;

/// `crc32fast::hash`: the CRC-32 checksum of the bytes, named `crc32`.
#[verifier::external_body]
fn crc32_hash(data: &[u8]) -> (h: u32)
    ensures
        h == crc32(data@),
{
    crc32fast::hash(data)
}

/// The bit that marks an AppID as a non-Steam shortcut.
pub const SHORTCUT_BIT: u32 = 0x8000_0000;

/// The AppID Steam gives a shortcut: the CRC-32 of the UTF-8 bytes of the
/// executable path followed by those of the app name, with the high bit set.
pub open spec fn app_id_spec(exe_path: Seq<char>, app_name: Seq<char>) -> u32 {
    crc32(encode_utf8(exe_path) + encode_utf8(app_name)) | SHORTCUT_BIT
}

fn append_bytes(out: &mut Vec<u8>, bytes: &[u8])
    ensures
        final(out)@ == old(out)@ + bytes@,
{
    let ghost start = out@;
    let mut i: usize = 0;
    while i < bytes.len()
        invariant
            i <= bytes.len(),
            out@ == start + bytes@.take(i as int),
        decreases bytes.len() - i,
    {
        out.push(bytes[i]);
        i = i + 1;
        assert(out@ =~= start + bytes@.take(i as int));
    }
    assert(bytes@.take(bytes@.len() as int) == bytes@);
}

/// Calculates the AppID of a non-Steam shortcut. `exe_path` is in Steam's
/// quoted form (`"\"C:\\Games\\game.exe\""`). The result always has the
/// high bit set, which marks non-Steam games.
pub fn calculate_app_id(exe_path: &str, app_name: &str) -> (id: u32)
    ensures
        id == app_id_spec(exe_path@, app_name@),
        id & SHORTCUT_BIT != 0,
{
    let mut bytes: Vec<u8> = Vec::new();
    append_bytes(&mut bytes, exe_path.as_bytes());
    append_bytes(&mut bytes, app_name.as_bytes());
    let h = crc32_hash(bytes.as_slice());
    let id = h | SHORTCUT_BIT;
    assert((h | 0x8000_0000u32) & 0x8000_0000u32 != 0) by (bit_vector);
    id
}

} // verus!
