//! Choosing the devices that a value is encrypted for.

use vstd::prelude::*;
use vstd::utf8::*;
use crate::cipher::x25519_public;
use crate::crypto::{
    all_recipients_usable, decrypted, device_key, encrypt_for_devices, opens_for, recipient_key,
    sealable, BodyText, DecryptError, DevicePayload, EncryptError, Recipient, WrapText,
};
use crate::encoding::{base64_bytes, base64_text, law_base64_decode_encode};
use crate::text::{pad_right, padded, views};

verus! {

/// A device, as the server lists it.
pub struct DeviceListEntry {
    pub id: String,
    pub name: String,
    pub key_type: String,
    pub public_key: String,
}

/// The line that stands for a device in the picker: its name in a column of thirty
/// characters, and the type of its key.
pub open spec fn device_line(d: DeviceListEntry) -> Seq<char> {
    (padded(d.name@, 30) + "  ["@ + d.key_type@).push(']')
}

/// The lines of the devices for the picker.
pub fn device_lines(devices: &Vec<DeviceListEntry>) -> (out: Vec<String>)
    ensures
        views(out@) == devices@.map_values(|d: DeviceListEntry| device_line(d)),
{
    let mut out: Vec<String> = Vec::new();
    let n: usize = devices.len();
    for i in 0..n
        invariant
            n == devices@.len(),
            views(out@) == devices@.take(i as int).map_values(
                |d: DeviceListEntry| device_line(d),
            ),
    {
        let mut line = pad_right(&devices[i].name, 30);
        line.append("  [");
        line.append(&devices[i].key_type);
        line.push(']');
        let ghost before = out@;
        out.push(line);
        assert(views(out@) =~= views(before).push(line@));
        assert(devices@.take(i + 1).map_values(|d: DeviceListEntry| device_line(d))
            =~= devices@.take(i as int).map_values(|d: DeviceListEntry| device_line(d)).push(
            line@,
        ));
    }
    assert(devices@.take(n as int) =~= devices@);
    out
}

/// Whether `r` stands for the device `d`.
pub open spec fn is_recipient(r: Recipient, d: DeviceListEntry) -> bool {
    r.device_id@ == d.id@ && r.key_type@ == d.key_type@ && r.public_key@ == d.public_key@
}

/// The devices with the given numbers.
fn chosen_recipients(devices: &Vec<DeviceListEntry>, chosen: &Vec<usize>) -> (out: Vec<
    Recipient,
>)
    requires
        forall|k: int| 0 <= k < chosen@.len() ==> #[trigger] chosen@[k] < devices@.len(),
    ensures
        out@.len() == chosen@.len(),
        forall|k: int|
            0 <= k < chosen@.len() ==> is_recipient(
                #[trigger] out@[k],
                devices@[chosen@[k] as int],
            ),
{
    let mut out: Vec<Recipient> = Vec::new();
    let n: usize = chosen.len();
    for k in 0..n
        invariant
            n == chosen@.len(),
            forall|k: int| 0 <= k < chosen@.len() ==> #[trigger] chosen@[k] < devices@.len(),
            out@.len() == k,
            forall|j: int|
                0 <= j < k ==> is_recipient(#[trigger] out@[j], devices@[chosen@[j] as int]),
    {
        let d = &devices[chosen[k]];
        out.push(
            Recipient {
                device_id: d.id.clone(),
                key_type: d.key_type.clone(),
                public_key: d.public_key.clone(),
            },
        );
    }
    out
}

/// Whether a value can be encrypted for the device.
pub open spec fn usable(d: DeviceListEntry) -> bool {
    recipient_key(d.key_type@, d.public_key@, 0) is Ok
}

/// Whether `payload` holds `plaintext` for each of the chosen devices, with `aad` as
/// the associated data: each of them is a recipient, in the order of the choice, and
/// opens it with its private key.
pub open spec fn is_encrypted_for(
    payload: DevicePayload,
    aad: Seq<char>,
    plaintext: Seq<u8>,
    devices: Seq<DeviceListEntry>,
    chosen: Seq<usize>,
) -> bool {
    &&& sealable(aad, plaintext)
    &&& payload.aad@ == base64_text(encode_utf8(aad))
    &&& payload.recipients@.len() == chosen.len()
    &&& forall|k: int|
        0 <= k < chosen.len() ==> {
            let d = devices[chosen[k] as int];
            &&& usable(d)
            &&& (#[trigger] payload.recipients@[k]).device_id@ == d.id@
            &&& payload.recipients@[k].key_type@ == d.key_type@
            &&& opens_for(payload.recipients@[k], payload, d.public_key@, plaintext)
        }
}

/// Whether the chosen device at position `k` is the first that cannot be used, for the
/// reason `e`.
pub open spec fn first_unusable(
    devices: Seq<DeviceListEntry>,
    chosen: Seq<usize>,
    k: int,
    e: EncryptError,
) -> bool {
    let d = devices[chosen[k] as int];
    &&& 0 <= k < chosen.len()
    &&& recipient_key(d.key_type@, d.public_key@, k as usize) == Err::<Seq<u8>, EncryptError>(e)
    &&& forall|j: int| 0 <= j < k ==> usable(devices[#[trigger] chosen[j] as int])
}

/// Whether encrypting for the chosen devices fails with `e`: the value is too long
/// for the cipher, or `e` is what is wrong with the first device that cannot be used.
pub open spec fn encryption_fails(
    aad: Seq<char>,
    plaintext: Seq<u8>,
    devices: Seq<DeviceListEntry>,
    chosen: Seq<usize>,
    e: EncryptError,
) -> bool {
    if e == EncryptError::TooLong {
        !sealable(aad, plaintext)
    } else {
        sealable(aad, plaintext) && exists|k: int| first_unusable(devices, chosen, k, e)
    }
}

/// Encrypts a value for the chosen devices.
pub fn encrypt_for_chosen(
    aad: &str,
    plaintext: &[u8],
    devices: &Vec<DeviceListEntry>,
    chosen: &Vec<usize>,
) -> (out: Result<DevicePayload, EncryptError>)
    requires
        forall|k: int| 0 <= k < chosen@.len() ==> #[trigger] chosen@[k] < devices@.len(),
    ensures
        match out {
            Ok(p) => is_encrypted_for(p, aad@, plaintext@, devices@, chosen@),
            Err(e) => encryption_fails(aad@, plaintext@, devices@, chosen@, e),
        },
{
    let recipients = chosen_recipients(devices, chosen);
    match encrypt_for_devices(aad, plaintext, &recipients) {
        Ok(p) => {
            proof {
                assert forall|k: int| 0 <= k < chosen@.len() implies usable(
                    devices@[#[trigger] chosen@[k] as int],
                ) by {
                    assert(is_recipient(recipients@[k], devices@[chosen@[k] as int]));
                    assert(recipient_key(
                        recipients@[k].key_type@,
                        recipients@[k].public_key@,
                        k as usize,
                    ) is Ok);
                }
                assert forall|k: int| 0 <= k < chosen@.len() implies {
                    let d = devices@[chosen@[k] as int];
                    &&& (#[trigger] p.recipients@[k]).device_id@ == d.id@
                    &&& p.recipients@[k].key_type@ == d.key_type@
                    &&& opens_for(p.recipients@[k], p, d.public_key@, plaintext@)
                } by {
                    assert(is_recipient(recipients@[k], devices@[chosen@[k] as int]));
                }
            }
            Ok(p)
        },
        Err(e) => {
            proof {
                if e != EncryptError::TooLong {
                    let k = choose|k: int|
                        {
                            &&& 0 <= k < recipients@.len()
                            &&& recipient_key(
                                #[trigger] recipients@[k].key_type@,
                                recipients@[k].public_key@,
                                k as usize,
                            ) == Err::<Seq<u8>, EncryptError>(e)
                            &&& all_recipients_usable(recipients@.take(k))
                        };
                    assert(is_recipient(recipients@[k], devices@[chosen@[k] as int]));
                    assert forall|j: int| 0 <= j < k implies usable(
                        devices@[#[trigger] chosen@[j] as int],
                    ) by {
                        let taken = recipients@.take(k);
                        assert(is_recipient(recipients@[j], devices@[chosen@[j] as int]));
                        assert(recipient_key(
                            taken[j].key_type@,
                            taken[j].public_key@,
                            j as usize,
                        ) is Ok);
                    }
                    assert(first_unusable(devices@, chosen@, k, e));
                }
            }
            Err(e)
        },
    }
}

// ── Laws ────────────────────────────────────────────────────────────────────
/// The line of a device begins with the whole of its name, filled up with spaces to thirty
/// characters, and ends with the whole type of its key in brackets.
pub proof fn law_device_line(d: DeviceListEntry)
    ensures
        ({
            let line = device_line(d);
            let name = d.name@;
            let column = if name.len() < 30 {
                30
            } else {
                name.len() as int
            };
            &&& name.is_prefix_of(line)
            &&& forall|i: int| name.len() <= i < column ==> #[trigger] line[i] == ' '
            &&& line.skip(column) == seq![' ', ' ', '['] + d.key_type@ + seq![']']
        }),
{
    reveal_strlit("  [");
    let line = device_line(d);
    let name = d.name@;
    let head = padded(name, 30);
    crate::text::law_padded(name, 30);
    assert(line.take(name.len() as int) =~= head.take(name.len() as int));
    assert(head.take(name.len() as int) =~= name);
    assert forall|i: int| name.len() <= i < head.len() implies #[trigger] line[i] == ' ' by {
        assert(line[i] == head[i]);
    }
    assert(line.skip(head.len() as int) =~= seq![' ', ' ', '['] + d.key_type@ + seq![']']);
}

/// A device can be encrypted for if its key is an X25519 key of 32 bytes in base64, and not
/// otherwise.
pub proof fn law_usable(d: DeviceListEntry)
    ensures
        usable(d) <==> d.key_type@ == "x25519"@ && (base64_bytes(d.public_key@) matches Some(b)
            && b.len() == 32),
{
}

/// An encrypted value has the chosen devices as its recipients, one for each, in the order of
/// the choice and by their own ids; whoever holds the private key of one of them opens it to the
/// value; and the data that is associated with it is the given text.
pub proof fn law_encrypted_for_the_chosen(
    payload: DevicePayload,
    aad: Seq<char>,
    plaintext: Seq<u8>,
    devices: Seq<DeviceListEntry>,
    chosen: Seq<usize>,
    k: int,
    private_key: Seq<char>,
    secret: Seq<u8>,
)
    requires
        is_encrypted_for(payload, aad, plaintext, devices, chosen),
        0 <= k < chosen.len(),
        device_key(private_key) == Ok::<Seq<u8>, DecryptError>(secret),
        base64_bytes(devices[chosen[k] as int].public_key@) == Some(x25519_public(secret)),
    ensures
        payload.recipients@.len() == chosen.len(),
        payload.recipients@[k].device_id@ == devices[chosen[k] as int].id@,
        payload.recipients@[k].key_type@ == devices[chosen[k] as int].key_type@,
        devices[chosen[k] as int].key_type@ == "x25519"@,
        base64_bytes(payload.aad@) == Some(encode_utf8(aad)),
        decrypted(
            (WrapText {
                private_key,
                ephemeral_pub: payload.recipients@[k].ephemeral_pub@,
                dek_nonce: payload.recipients@[k].dek_nonce@,
                encrypted_dek: payload.recipients@[k].encrypted_dek@,
            }),
            (BodyText {
                nonce: payload.nonce@,
                ciphertext: payload.ciphertext@,
                aad: payload.aad@,
            }),
        ) == Ok::<Seq<u8>, DecryptError>(plaintext),
{
    law_base64_decode_encode(encode_utf8(aad));
    assert(payload.recipients@[k].device_id@ == devices[chosen[k] as int].id@);
    assert(opens_for(
        payload.recipients@[k],
        payload,
        devices[chosen[k] as int].public_key@,
        plaintext,
    ));
}

/// Encrypting fails for length only where the value or its associated data is over the limit of
/// the cipher, and else for the first of the chosen devices that is no good: its position is
/// named, and its key is of another type, is not base64, or is not 32 bytes, as the error says.
pub proof fn law_encryption_fails(
    aad: Seq<char>,
    plaintext: Seq<u8>,
    devices: Seq<DeviceListEntry>,
    chosen: Seq<usize>,
    e: EncryptError,
)
    requires
        encryption_fails(aad, plaintext, devices, chosen, e),
        chosen.len() <= usize::MAX,
    ensures
        e == EncryptError::TooLong <==> plaintext.len() > 0x10_0000_0000 || encode_utf8(aad).len()
            > 0x10_0000_0000,
        e matches EncryptError::KeyType(k) ==> k < chosen.len() && devices[chosen[k as int] as
        int].key_type@ != "x25519"@,
        e matches EncryptError::PublicKeyEncoding(k) ==> k < chosen.len() && base64_bytes(
            devices[chosen[k as int] as int].public_key@,
        ) is None,
        e matches EncryptError::PublicKeyLength(k) ==> k < chosen.len() && (base64_bytes(
            devices[chosen[k as int] as int].public_key@,
        ) matches Some(b) && b.len() != 32),
        e != EncryptError::TooLong ==> exists|k: int|
            {
                &&& 0 <= k < chosen.len()
                &&& !usable(devices[#[trigger] chosen[k] as int])
                &&& e == EncryptError::KeyType(k as usize) || e == EncryptError::PublicKeyEncoding(
                    k as usize,
                ) || e == EncryptError::PublicKeyLength(k as usize)
                &&& forall|j: int| 0 <= j < k ==> usable(devices[#[trigger] chosen[j] as int])
            },
{
    if e != EncryptError::TooLong {
        let k = choose|k: int| first_unusable(devices, chosen, k, e);
        assert(first_unusable(devices, chosen, k, e));
        assert(!usable(devices[chosen[k] as int]));
    }
}

} // verus!
