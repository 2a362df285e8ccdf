//! The device's identity on the broker: client identifier and topic names.
use vstd::prelude::*;
use vstd::string::*;

verus! {

/// Topic under which the device publishes its status; the client identifier follows.
pub const CLIENT_TOPIC_PREFIX: &'static str = "embedded/scribe/client/";

/// Topic filter of the messages to print.
pub const INBOUND_TOPIC: &'static str = "embedded/scribe/producer/#";

/// Lower-case hexadecimal digits, by value.
pub const HEX_DIGITS: &'static str = "0123456789abcdef";

/// The lower-case hexadecimal digit of `d` (below 16).
pub open spec fn hex_digit(d: int) -> char {
    HEX_DIGITS@[d]
}

/// Two lower-case hexadecimal digits for a byte.
pub open spec fn hex_pair(b: u8) -> Seq<char> {
    seq![hex_digit((b / 16) as int), hex_digit((b % 16) as int)]
}

/// The bytes of a hardware address as hexadecimal pairs joined by `:`.
pub open spec fn hex_address(mac: Seq<u8>) -> Seq<char>
    decreases mac.len(),
{
    if mac.len() == 0 {
        seq![]
    } else if mac.len() == 1 {
        hex_pair(mac[0])
    } else {
        hex_address(mac.drop_last()) + seq![':'] + hex_pair(mac.last())
    }
}

fn push_hex_digit(out: &mut String, d: u8)
    requires
        d < 16,
    ensures
        final(out)@ == old(out)@.push(hex_digit(d as int)),
{
    proof {
        reveal_strlit("0123456789abcdef");
    }
    let digit = HEX_DIGITS.substring_char(d as usize, d as usize + 1);
    out.append(digit);
    assert(digit@ =~= seq![hex_digit(d as int)]);
}

/// The client identifier of a device with hardware address `mac`: its six bytes as
/// lower-case hexadecimal pairs joined by `:`.
pub fn client_id(mac: &[u8; 6]) -> (r: String)
    ensures
        r@ == hex_address(mac@),
{
    let mut out = String::new();
    let mut i: usize = 0;
    while i < 6
        invariant
            i <= 6,
            mac@.len() == 6,
            out@ == hex_address(mac@.take(i as int)),
        decreases 6 - i,
    {
        let b = mac[i];
        let ghost before = out@;
        if i > 0 {
            out.append(":");
            proof {
                reveal_strlit(":");
            }
        }
        push_hex_digit(&mut out, b / 16);
        push_hex_digit(&mut out, b % 16);
        proof {
            let t = mac@.take(i + 1);
            assert(t.drop_last() =~= mac@.take(i as int));
            assert(t.last() == b);
            if i == 0 {
                assert(out@ =~= hex_pair(b));
            } else {
                assert(out@ =~= before + seq![':'] + hex_pair(b));
            }
        }
        i = i + 1;
    }
    assert(mac@.take(6) =~= mac@);
    out
}

/// The topic on which a client publishes its status.
pub fn client_topic(client_id: &str) -> (r: String)
    ensures
        r@ == CLIENT_TOPIC_PREFIX@ + client_id@,
{
    CLIENT_TOPIC_PREFIX.to_owned().concat(client_id)
}

} // verus!
