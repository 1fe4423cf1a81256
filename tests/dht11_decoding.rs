use greenhouse_link::dht11::{check_handshake_pulse, decode_reading, Dh11Error};

fn pulses_for(bytes: [u8; 5]) -> Vec<u64> {
    let mut out = Vec::new();
    for b in bytes {
        for k in (0..8).rev() {
            out.push(if (b >> k) & 1 == 1 { 70 } else { 26 });
        }
    }
    out
}

#[test]
fn handshake_pulse_limits() {
    assert_eq!(check_handshake_pulse(None), Err(Dh11Error::TimeOut));
    assert_eq!(check_handshake_pulse(Some(19)), Err(Dh11Error::TimeAnomaly));
    assert_eq!(check_handshake_pulse(Some(20)), Ok(()));
    assert_eq!(check_handshake_pulse(Some(80)), Ok(()));
    assert_eq!(check_handshake_pulse(Some(100)), Ok(()));
    assert_eq!(check_handshake_pulse(Some(101)), Err(Dh11Error::TimeAnomaly));
}

#[test]
fn reading_with_good_checksum() {
    let bytes = [55, 0, 24, 3, 82];
    assert_eq!(decode_reading(&pulses_for(bytes)), Ok(bytes));
}

#[test]
fn checksum_wraps_at_a_byte() {
    let bytes = [200, 100, 0, 0, 44];
    assert_eq!(decode_reading(&pulses_for(bytes)), Ok(bytes));
}

#[test]
fn bad_checksum_is_reported() {
    let bytes = [55, 0, 24, 3, 83];
    assert_eq!(decode_reading(&pulses_for(bytes)), Err(Dh11Error::ChecksumError));
}

#[test]
fn thirty_microseconds_is_a_zero() {
    let mut p = pulses_for([0, 0, 0, 0, 0]);
    p[7] = 30;
    assert_eq!(decode_reading(&p), Ok([0, 0, 0, 0, 0]));
    p[7] = 31;
    assert_eq!(decode_reading(&p), Err(Dh11Error::ChecksumError));
}

#[test]
fn missing_bits_are_a_timeout() {
    let p = pulses_for([1, 2, 3, 4, 10]);
    assert_eq!(decode_reading(&p[..39]), Err(Dh11Error::TimeOut));
    assert_eq!(decode_reading(&[]), Err(Dh11Error::TimeOut));
}
