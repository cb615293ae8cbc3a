//! Modbus-RTU frames: building requests and parsing responses. Pure functions; the
//! transport is elsewhere.

use crate::text::{append_decimal, append_hex, decimal_text, hex_text};
use vstd::prelude::*;
use vstd::slice::slice_subrange;
use vstd::string::StringExecFns;

verus! {

/// Function code of a read of holding registers.
pub const FN_READ_HOLDING: u8 = 0x03;

/// Function code of a write of one holding register.
pub const FN_WRITE_HOLDING: u8 = 0x06;

/// The polynomial of the checksum, reflected.
pub const CRC_POLY: u16 = 0xA001;

/// Why a response was not accepted.
#[derive(Copy, Clone, Debug, PartialEq, Eq, Structural)]
pub enum ModbusError {
    /// Fewer bytes than the reply has; carries how many there were.
    ShortResponse(usize),
    /// Another slave answered.
    BadSlave(u8),
    /// Function code, byte count or echo is not what was asked for.
    BadHeader,
    /// The checksum is wrong.
    BadCrc,
    /// The slave reported an exception, with its code.
    Exception(u8),
}

impl ModbusError {
    /// The text of `message`.
    pub open spec fn message_text(self) -> Seq<char> {
        match self {
            ModbusError::ShortResponse(n) => "short response ("@ + decimal_text(n as nat)
                + " bytes)"@,
            ModbusError::BadSlave(a) => "wrong slave id 0x"@ + hex_text(a),
            ModbusError::BadHeader => "malformed header"@,
            ModbusError::BadCrc => "CRC mismatch"@,
            ModbusError::Exception(c) => "modbus exception 0x"@ + hex_text(c),
        }
    }

    /// The human-readable form.
    pub fn message(self) -> (text: String)
        ensures
            text@ == self.message_text(),
    {
        match self {
            ModbusError::ShortResponse(n) => {
                let mut text = "short response (".to_owned();
                append_decimal(&mut text, n);
                text.append(" bytes)");
                text
            },
            ModbusError::BadSlave(a) => {
                let mut text = "wrong slave id 0x".to_owned();
                append_hex(&mut text, a);
                text
            },
            ModbusError::BadHeader => "malformed header".to_owned(),
            ModbusError::BadCrc => "CRC mismatch".to_owned(),
            ModbusError::Exception(c) => {
                let mut text = "modbus exception 0x".to_owned();
                append_hex(&mut text, c);
                text
            },
        }
    }
}

/// Why a transaction failed: the transport or the frame.
#[derive(Copy, Clone, Debug, PartialEq, Eq, Structural)]
pub enum RtuError {
    UartRead,
    UartWrite,
    Modbus(ModbusError),
}

impl RtuError {
    /// The text of `message`.
    pub open spec fn message_text(self) -> Seq<char> {
        match self {
            RtuError::UartRead => "UART read failed"@,
            RtuError::UartWrite => "UART write failed"@,
            RtuError::Modbus(e) => e.message_text(),
        }
    }

    /// The human-readable form.
    pub fn message(self) -> (text: String)
        ensures
            text@ == self.message_text(),
    {
        match self {
            RtuError::UartRead => "UART read failed".to_owned(),
            RtuError::UartWrite => "UART write failed".to_owned(),
            RtuError::Modbus(e) => e.message(),
        }
    }
}

impl From<ModbusError> for RtuError {
    fn from(e: ModbusError) -> (r: Self) {
        RtuError::Modbus(e)
    }
}

impl vstd::std_specs::convert::FromSpecImpl<ModbusError> for RtuError {
    open spec fn obeys_from_spec() -> bool {
        true
    }

    open spec fn from_spec(e: ModbusError) -> RtuError {
        RtuError::Modbus(e)
    }
}

/// One bit of the checksum.
pub open spec fn crc_bit(c: u16) -> u16 {
    if c & 1 != 0 {
        (c >> 1) ^ CRC_POLY
    } else {
        c >> 1
    }
}

/// `n` bits of the checksum.
pub open spec fn crc_bits(c: u16, n: nat) -> u16
    decreases n,
{
    if n == 0 {
        c
    } else {
        crc_bit(crc_bits(c, (n - 1) as nat))
    }
}

/// One byte of the checksum.
pub open spec fn crc_byte(c: u16, b: u8) -> u16 {
    crc_bits(c ^ (b as u16), 8)
}

/// The Modbus checksum of a sequence of bytes: reflected, seeded with all ones.
pub open spec fn crc_of(data: Seq<u8>) -> u16
    decreases data.len(),
{
    if data.len() == 0 {
        0xFFFF
    } else {
        crc_byte(crc_of(data.drop_last()), data.last())
    }
}

/// A checksum as bytes, lowest first.
pub open spec fn crc_bytes(c: u16) -> Seq<u8> {
    seq![(c % 256) as u8, (c / 256) as u8]
}

/// A register as bytes, highest first.
pub open spec fn be_bytes(v: u16) -> Seq<u8> {
    seq![(v / 256) as u8, (v % 256) as u8]
}

/// Bytes followed by their checksum.
pub open spec fn framed(body: Seq<u8>) -> Seq<u8> {
    body + crc_bytes(crc_of(body))
}

/// A request for one address with one word of payload.
pub open spec fn request(slave: u8, function: u8, addr: u16, word: u16) -> Seq<u8> {
    framed(seq![slave, function] + be_bytes(addr) + be_bytes(word))
}

/// Bytes `len - 2` and `len - 1` are the checksum of those before.
pub open spec fn crc_holds(resp: Seq<u8>, len: int) -> bool {
    resp[len - 2] + 256 * resp[len - 1] == crc_of(resp.take(len - 2))
}

/// The register at `pos`.
pub open spec fn be_value(b: Seq<u8>, pos: int) -> u16 {
    (256 * b[pos] + b[pos + 1]) as u16
}

/// The Modbus checksum.
pub fn crc16_modbus(data: &[u8]) -> (crc: u16)
    ensures
        crc == crc_of(data@),
{
    let mut crc: u16 = 0xFFFF;
    let mut i: usize = 0;
    assert(data@.take(0) =~= Seq::<u8>::empty());
    while i < data.len()
        invariant
            i <= data@.len(),
            crc == crc_of(data@.take(i as int)),
        decreases data.len() - i,
    {
        let ghost before = crc;
        crc = crc ^ (data[i] as u16);
        let ghost mixed = crc;
        let mut n: u32 = 0;
        while n < 8
            invariant
                n <= 8,
                crc == crc_bits(mixed, n as nat),
            decreases 8 - n,
        {
            if crc & 1 != 0 {
                crc = (crc >> 1) ^ CRC_POLY;
            } else {
                crc = crc >> 1;
            }
            n = n + 1;
        }
        proof {
            let more = data@.take(i + 1);
            assert(more.drop_last() =~= data@.take(i as int));
            assert(more.last() == data@[i as int]);
        }
        i = i + 1;
    }
    assert(data@.take(data@.len() as int) =~= data@);
    crc
}

fn build_request(slave: u8, function: u8, addr: u16, word: u16) -> (req: [u8; 8])
    ensures
        req@ == request(slave, function, addr, word),
        req@.len() == 8 && req@[0] == slave && req@[1] == function,
        256 * req@[2] + req@[3] == addr,
        256 * req@[4] + req@[5] == word,
        req@[6] + 256 * req@[7] == crc_of(req@.take(6)),
{
    let a_hi: u8 = (addr / 256) as u8;
    let a_lo: u8 = (addr % 256) as u8;
    let w_hi: u8 = (word / 256) as u8;
    let w_lo: u8 = (word % 256) as u8;
    let body: [u8; 6] = [slave, function, a_hi, a_lo, w_hi, w_lo];
    let crc = crc16_modbus(body.as_slice());
    assert(body@ =~= seq![slave, function] + be_bytes(addr) + be_bytes(word));
    let req: [u8; 8] = [
        slave,
        function,
        a_hi,
        a_lo,
        w_hi,
        w_lo,
        (crc % 256) as u8,
        (crc / 256) as u8,
    ];
    assert(req@ =~= request(slave, function, addr, word));
    assert(req@.take(6) =~= body@);
    req
}

/// A request to read `count` registers from `addr` on.
pub fn build_read_request(slave: u8, addr: u16, count: u16) -> (req: [u8; 8])
    ensures
        req@ == request(slave, FN_READ_HOLDING, addr, count),
        req@.len() == 8 && req@[0] == slave && req@[1] == 3,
        256 * req@[2] + req@[3] == addr,
        256 * req@[4] + req@[5] == count,
        req@[6] + 256 * req@[7] == crc_of(req@.take(6)),
{
    build_request(slave, FN_READ_HOLDING, addr, count)
}

/// A request to write `value` to the register at `addr`.
pub fn build_write_request(slave: u8, addr: u16, value: u16) -> (req: [u8; 8])
    ensures
        req@ == request(slave, FN_WRITE_HOLDING, addr, value),
        req@.len() == 8 && req@[0] == slave && req@[1] == 6,
        256 * req@[2] + req@[3] == addr,
        256 * req@[4] + req@[5] == value,
        req@[6] + 256 * req@[7] == crc_of(req@.take(6)),
{
    build_request(slave, FN_WRITE_HOLDING, addr, value)
}

fn check_crc(resp: &[u8], expected_len: usize) -> (r: Result<(), ModbusError>)
    requires
        2 <= expected_len <= resp@.len(),
    ensures
        r == (if crc_holds(resp@, expected_len as int) {
            Ok(())
        } else {
            Err(ModbusError::BadCrc)
        }),
{
    let crc_got: u16 = resp[expected_len - 2] as u16 + 256 * (resp[expected_len - 1] as u16);
    let crc_calc = crc16_modbus(slice_subrange(resp, 0, expected_len - 2));
    assert(resp@.subrange(0, expected_len - 2) =~= resp@.take(expected_len - 2));
    if crc_got == crc_calc {
        Ok(())
    } else {
        Err(ModbusError::BadCrc)
    }
}

/// What both kinds of response have in common, checked first: enough bytes, the
/// right slave, no exception. The checksum has to hold before an exception code is
/// trusted.
pub open spec fn preamble_error(resp: Seq<u8>, slave: u8) -> Option<ModbusError> {
    if resp.len() < 5 {
        Some(ModbusError::ShortResponse(resp.len() as usize))
    } else if resp[0] != slave {
        Some(ModbusError::BadSlave(resp[0]))
    } else if resp[1] >= 0x80 {
        if crc_holds(resp, 5) {
            Some(ModbusError::Exception(resp[2]))
        } else {
            Some(ModbusError::BadCrc)
        }
    } else {
        None
    }
}

/// Why a response to a read is refused, in the order of the checks.
pub open spec fn read_error(resp: Seq<u8>, slave: u8, count: u16) -> Option<ModbusError> {
    let len = 5 + 2 * count;
    if preamble_error(resp, slave) is Some {
        preamble_error(resp, slave)
    } else if resp[1] != FN_READ_HOLDING || resp[2] != 2 * count {
        Some(ModbusError::BadHeader)
    } else if resp.len() < len {
        Some(ModbusError::ShortResponse(resp.len() as usize))
    } else if !crc_holds(resp, len) {
        Some(ModbusError::BadCrc)
    } else {
        None
    }
}

/// The registers of a response to a read.
pub open spec fn registers(resp: Seq<u8>, count: u16) -> Seq<u16> {
    Seq::new(count as nat, |i: int| be_value(resp, 3 + 2 * i))
}

/// Why a response to a write is refused. A success echoes the request.
pub open spec fn write_error(resp: Seq<u8>, req: Seq<u8>) -> Option<ModbusError> {
    if preamble_error(resp, req[0]) is Some {
        preamble_error(resp, req[0])
    } else if resp.len() < 8 {
        Some(ModbusError::ShortResponse(resp.len() as usize))
    } else if !crc_holds(resp, 8) {
        Some(ModbusError::BadCrc)
    } else if resp.take(8) != req {
        Some(ModbusError::BadHeader)
    } else {
        None
    }
}

fn check_preamble(resp: &[u8], slave: u8) -> (r: Result<(), ModbusError>)
    ensures
        match r {
            Ok(_) => preamble_error(resp@, slave) is None,
            Err(e) => preamble_error(resp@, slave) == Some(e),
        },
{
    if resp.len() < 5 {
        return Err(ModbusError::ShortResponse(resp.len()));
    }
    if resp[0] != slave {
        return Err(ModbusError::BadSlave(resp[0]));
    }
    if resp[1] >= 0x80 {
        check_crc(resp, 5)?;
        return Err(ModbusError::Exception(resp[2]));
    }
    Ok(())
}

/// The registers of a response to a read of `count` of them.
pub fn parse_read_response(resp: &[u8], slave: u8, count: u16) -> (r: Result<
    Vec<u16>,
    ModbusError,
>)
    ensures
        match r {
            Ok(values) => read_error(resp@, slave, count) is None && values@ == registers(
                resp@,
                count,
            ),
            Err(e) => read_error(resp@, slave, count) == Some(e),
        },
{
    check_preamble(resp, slave)?;
    let expected_len: usize = 5 + 2 * count as usize;
    if resp[1] != FN_READ_HOLDING || resp[2] as usize != 2 * count as usize {
        return Err(ModbusError::BadHeader);
    }
    if resp.len() < expected_len {
        return Err(ModbusError::ShortResponse(resp.len()));
    }
    check_crc(resp, expected_len)?;
    let mut values: Vec<u16> = Vec::new();
    let mut i: usize = 0;
    while i < count as usize
        invariant
            i <= count,
            resp@.len() >= 5 + 2 * count,
            values@ =~= registers(resp@, count).take(i as int),
        decreases count - i,
    {
        values.push(256 * (resp[3 + 2 * i] as u16) + resp[4 + 2 * i] as u16);
        i = i + 1;
    }
    assert(values@ =~= registers(resp@, count));
    Ok(values)
}

/// Checks a response to the write request `req`.
pub fn parse_write_response(resp: &[u8], req: &[u8; 8]) -> (r: Result<(), ModbusError>)
    ensures
        match r {
            Ok(_) => write_error(resp@, req@) is None,
            Err(e) => write_error(resp@, req@) == Some(e),
        },
{
    check_preamble(resp, req[0])?;
    if resp.len() < 8 {
        return Err(ModbusError::ShortResponse(resp.len()));
    }
    check_crc(resp, 8)?;
    let mut i: usize = 0;
    while i < 8
        invariant
            i <= 8,
            resp@.len() >= 8,
            forall|j: int| 0 <= j < i ==> resp@[j] == req@[j],
            preamble_error(resp@, req@[0]) is None,
            crc_holds(resp@, 8),
        decreases 8 - i,
    {
        if resp[i] != req[i] {
            assert(resp@.take(8)[i as int] != req@[i as int]);
            return Err(ModbusError::BadHeader);
        }
        i = i + 1;
    }
    assert(resp@.take(8) =~= req@);
    Ok(())
}

/// A frame ends with the checksum of what comes before.
pub proof fn framed_checks(body: Seq<u8>)
    ensures
        framed(body).len() == body.len() + 2,
        crc_holds(framed(body), framed(body).len() as int),
{
    let f = framed(body);
    assert(f.take(f.len() - 2) =~= body);
}

/// The bytes of registers, one after the other.
pub open spec fn register_bytes(values: Seq<u16>) -> Seq<u8>
    decreases values.len(),
{
    if values.len() == 0 {
        Seq::empty()
    } else {
        register_bytes(values.drop_last()) + be_bytes(values.last())
    }
}

/// What a slave answers to a read.
pub open spec fn read_reply(slave: u8, values: Seq<u16>) -> Seq<u8> {
    framed(seq![slave, FN_READ_HOLDING, (2 * values.len()) as u8] + register_bytes(values))
}

proof fn lemma_register_bytes(values: Seq<u16>)
    ensures
        register_bytes(values).len() == 2 * values.len(),
        forall|i: int|
            0 <= i < values.len() ==> be_value(register_bytes(values), 2 * i)
                == #[trigger] values[i],
    decreases values.len(),
{
    if values.len() > 0 {
        let before = values.drop_last();
        lemma_register_bytes(before);
        let a = register_bytes(before);
        let b = be_bytes(values.last());
        assert forall|i: int| 0 <= i < values.len() implies be_value(register_bytes(values), 2 * i)
            == #[trigger] values[i] by {
            if i < before.len() {
                assert(values[i] == before[i]);
                assert((a + b)[2 * i] == a[2 * i]);
                assert((a + b)[2 * i + 1] == a[2 * i + 1]);
            } else {
                assert((a + b)[2 * i] == b[0]);
                assert((a + b)[2 * i + 1] == b[1]);
            }
        }
    }
}

/// The registers that a slave answers with are what parsing gives back, also with
/// more bytes behind the reply.
pub proof fn read_reply_parses(slave: u8, values: Seq<u16>, rest: Seq<u8>)
    requires
        values.len() <= 127,
    ensures
        read_error(read_reply(slave, values) + rest, slave, values.len() as u16) is None,
        registers(read_reply(slave, values) + rest, values.len() as u16) == values,
{
    let head = seq![slave, FN_READ_HOLDING, (2 * values.len()) as u8];
    let body = head + register_bytes(values);
    let n = values.len() as u16;
    let resp = read_reply(slave, values) + rest;
    lemma_register_bytes(values);
    framed_checks(body);
    let len = 5 + 2 * n;
    assert(resp.take(len - 2) =~= body);
    assert(framed(body).take(len - 2) =~= body);
    assert forall|i: int| 0 <= i < values.len() implies registers(resp, n)[i] == values[i] by {
        assert(resp[3 + 2 * i] == register_bytes(values)[2 * i]);
        assert(resp[3 + 2 * i + 1] == register_bytes(values)[2 * i + 1]);
        assert(be_value(register_bytes(values), 2 * i) == values[i]);
    }
    assert(registers(resp, n) =~= values);
}

/// A write that is echoed is accepted, whatever it writes.
pub proof fn write_echo_parses(slave: u8, addr: u16, value: u16, rest: Seq<u8>)
    ensures
        write_error(
            request(slave, FN_WRITE_HOLDING, addr, value) + rest,
            request(slave, FN_WRITE_HOLDING, addr, value),
        ) is None,
{
    let body = seq![slave, FN_WRITE_HOLDING] + be_bytes(addr) + be_bytes(value);
    let req = request(slave, FN_WRITE_HOLDING, addr, value);
    framed_checks(body);
    assert((req + rest).take(8) =~= req);
    assert((req + rest).take(6) =~= body);
}

proof fn lemma_crc_bit_injective(a: u16, b: u16)
    requires
        crc_bit(a) == crc_bit(b),
    ensures
        a == b,
{
    assert(a == b) by (bit_vector)
        requires
            (if a & 1 != 0 {
                (a >> 1) ^ 0xA001u16
            } else {
                a >> 1
            }) == (if b & 1 != 0 {
                (b >> 1) ^ 0xA001u16
            } else {
                b >> 1
            }),
    ;
}

proof fn lemma_crc_bits_injective(a: u16, b: u16, n: nat)
    requires
        crc_bits(a, n) == crc_bits(b, n),
    ensures
        a == b,
    decreases n,
{
    if n > 0 {
        lemma_crc_bit_injective(crc_bits(a, (n - 1) as nat), crc_bits(b, (n - 1) as nat));
        lemma_crc_bits_injective(a, b, (n - 1) as nat);
    }
}

/// A change within a single byte always changes the checksum.
pub proof fn one_byte_change_is_detected(data: Seq<u8>, i: int, b: u8)
    requires
        0 <= i < data.len(),
        data[i] != b,
    ensures
        crc_of(data.update(i, b)) != crc_of(data),
    decreases data.len(),
{
    let changed = data.update(i, b);
    let before = data.drop_last();
    if i == data.len() - 1 {
        assert(changed.drop_last() =~= before);
        let c = crc_of(before);
        let x = data[i];
        if crc_of(changed) == crc_of(data) {
            lemma_crc_bits_injective(c ^ (b as u16), c ^ (x as u16), 8);
            assert(b == x) by (bit_vector)
                requires
                    c ^ (b as u16) == c ^ (x as u16),
            ;
        }
    } else {
        assert(changed.drop_last() =~= before.update(i, b));
        one_byte_change_is_detected(before, i, b);
        let c = crc_of(before);
        let d = crc_of(before.update(i, b));
        let x = data.last();
        if crc_of(changed) == crc_of(data) {
            lemma_crc_bits_injective(d ^ (x as u16), c ^ (x as u16), 8);
            assert(d == c) by (bit_vector)
                requires
                    d ^ (x as u16) == c ^ (x as u16),
            ;
        }
    }
}

/// A frame one of whose bytes was changed on the way, checksum included, does not
/// check.
pub proof fn corrupted_frame_does_not_check(body: Seq<u8>, i: int, b: u8)
    requires
        0 <= i < framed(body).len(),
        framed(body)[i] != b,
    ensures
        !crc_holds(framed(body).update(i, b), framed(body).len() as int),
{
    let f = framed(body);
    let g = f.update(i, b);
    let n = body.len() as int;
    framed_checks(body);
    assert(f.take(n) =~= body);
    if i < n {
        assert(g.take(n) =~= body.update(i, b));
        one_byte_change_is_detected(body, i, b);
    } else {
        assert(g.take(n) =~= body);
    }
}

/// A request says what it was built for: its bytes are the slave, the function, the
/// address and the word, both highest byte first, and the checksum of those six,
/// lowest byte first.
pub proof fn request_carries_its_fields(slave: u8, function: u8, addr: u16, word: u16)
    ensures
        ({
            let req = request(slave, function, addr, word);
            &&& req.len() == 8
            &&& req[0] == slave
            &&& req[1] == function
            &&& 256 * req[2] + req[3] == addr
            &&& 256 * req[4] + req[5] == word
            &&& req[6] + 256 * req[7] == crc_of(req.take(6))
        }),
{
    let body = seq![slave, function] + be_bytes(addr) + be_bytes(word);
    framed_checks(body);
    let req = request(slave, function, addr, word);
    assert(req.take(6) =~= body);
}

/// Two requests are the same bytes only where they ask for the same.
pub proof fn different_requests_differ(
    a: (u8, u8, u16, u16),
    b: (u8, u8, u16, u16),
)
    requires
        request(a.0, a.1, a.2, a.3) == request(b.0, b.1, b.2, b.3),
    ensures
        a == b,
{
    request_carries_its_fields(a.0, a.1, a.2, a.3);
    request_carries_its_fields(b.0, b.1, b.2, b.3);
}

/// A zero checksum stays zero over a zero byte.
proof fn lemma_crc_of_zero(n: nat)
    ensures
        crc_bits(0, n) == 0,
    decreases n,
{
    if n > 0 {
        lemma_crc_of_zero((n - 1) as nat);
        assert(0u16 & 1 == 0 && 0u16 >> 1 == 0) by (bit_vector);
    }
}

/// The last `n` bits of a word that has none of them set go out unchanged.
proof fn lemma_crc_shifts(c: u16, n: nat)
    requires
        n <= 8,
        c & 0xff == 0,
    ensures
        crc_bits(c, n) == c >> (n as u16),
        n < 8 ==> (c >> (n as u16)) & 1 == 0,
    decreases n,
{
    let k = n as u16;
    assert(c >> 0u16 == c) by (bit_vector);
    assert(k < 8 ==> (c >> k) & 1 == 0) by (bit_vector)
        requires
            c & 0xff == 0,
    ;
    if n > 0 {
        lemma_crc_shifts(c, (n - 1) as nat);
        let j = (n - 1) as u16;
        assert((c >> j) >> 1 == c >> k) by (bit_vector)
            requires
                k == j + 1,
                j < 8,
        ;
    }
}

/// The checksum of a whole frame, its own checksum included, is zero, whatever the
/// frame holds.
pub proof fn whole_frame_has_no_remainder(body: Seq<u8>)
    ensures
        crc_of(framed(body)) == 0,
{
    let c = crc_of(body);
    let lo = (c % 256) as u8;
    let hi = (c / 256) as u8;
    let f = framed(body);
    assert(f.drop_last().drop_last() =~= body);
    assert(f.drop_last().last() == lo && f.last() == hi);
    let x = c ^ (lo as u16);
    assert(x & 0xff == 0 && x >> 8u16 == hi as u16 && (x >> 8u16) ^ (hi as u16) == 0) by (bit_vector)
        requires
            x == c ^ (lo as u16),
            lo == (c % 256) as u8,
            hi == (c / 256) as u8,
    ;
    lemma_crc_shifts(x, 8);
    lemma_crc_of_zero(8);
    assert(crc_of(f.drop_last()) == crc_byte(c, lo));
    assert(crc_of(f.drop_last()) == hi as u16);
    assert((hi as u16) ^ (hi as u16) == 0) by (bit_vector);
    assert(crc_of(f) == crc_byte(hi as u16, hi));
}

/// The two checksum bytes at the end of the first `len` bytes are those of the bytes
/// before, lowest first.
pub open spec fn ends_with_its_checksum(resp: Seq<u8>, len: int) -> bool {
    resp[len - 2] + 256 * resp[len - 1] == crc_of(resp.take(len - 2))
}

/// What both kinds of response are refused for, read off the refusal: too few bytes for
/// any reply, the address of another slave, or the code of an exception that checks.
proof fn lemma_preamble(resp: Seq<u8>, slave: u8)
    ensures
        match preamble_error(resp, slave) {
            Some(ModbusError::ShortResponse(n)) => n == resp.len() as usize && resp.len() < 5,
            Some(ModbusError::BadSlave(a)) => resp.len() >= 5 && a == resp[0] && a != slave,
            Some(ModbusError::Exception(c)) => {
                &&& resp.len() >= 5
                &&& resp[0] == slave
                &&& resp[1] >= 128
                &&& c == resp[2]
                &&& ends_with_its_checksum(resp, 5)
            },
            Some(ModbusError::BadCrc) => {
                &&& resp.len() >= 5
                &&& resp[0] == slave
                &&& resp[1] >= 128
                &&& !ends_with_its_checksum(resp, 5)
            },
            Some(ModbusError::BadHeader) => false,
            None => resp.len() >= 5 && resp[0] == slave && resp[1] < 128,
        },
{
}

/// A read reply is accepted only from the slave that was asked, for the registers that
/// were asked for, with a checksum that holds; each register is then its two bytes,
/// highest first. A refusal names what is wrong with the reply.
pub proof fn read_refusal_tells_the_truth(resp: Seq<u8>, slave: u8, count: u16)
    ensures
        match read_error(resp, slave, count) {
            None => {
                &&& resp.len() >= 5 + 2 * count
                &&& resp[0] == slave
                &&& resp[1] == 3
                &&& resp[2] == 2 * count
                &&& ends_with_its_checksum(resp, 5 + 2 * count)
                &&& registers(resp, count).len() == count
                &&& forall|i: int|
                    0 <= i < count ==> #[trigger] registers(resp, count)[i] == 256 * resp[3 + 2 * i]
                        + resp[4 + 2 * i]
            },
            Some(ModbusError::ShortResponse(n)) => n == resp.len() as usize && (resp.len() < 5
                || resp.len() < 5 + 2 * count && resp[0] == slave && resp[1] == 3 && resp[2] == 2
                * count),
            Some(ModbusError::BadSlave(a)) => resp.len() >= 5 && a == resp[0] && a != slave,
            Some(ModbusError::Exception(c)) => {
                &&& resp.len() >= 5
                &&& resp[0] == slave
                &&& resp[1] >= 128
                &&& c == resp[2]
                &&& ends_with_its_checksum(resp, 5)
            },
            Some(ModbusError::BadHeader) => {
                &&& resp.len() >= 5
                &&& resp[0] == slave
                &&& resp[1] < 128
                &&& resp[1] != 3 || resp[2] != 2 * count
            },
            Some(ModbusError::BadCrc) => {
                &&& resp.len() >= 5
                &&& resp[0] == slave
                &&& if resp[1] >= 128 {
                    !ends_with_its_checksum(resp, 5)
                } else {
                    &&& resp[1] == 3
                    &&& resp[2] == 2 * count
                    &&& resp.len() >= 5 + 2 * count
                    &&& !ends_with_its_checksum(resp, 5 + 2 * count)
                }
            },
        },
{
    lemma_preamble(resp, slave);
}

/// A write is accepted only where the slave echoed all of it. A refusal names what is
/// wrong with the reply.
pub proof fn write_refusal_tells_the_truth(resp: Seq<u8>, req: Seq<u8>)
    requires
        req.len() == 8,
    ensures
        match write_error(resp, req) {
            None => {
                &&& resp.len() >= 8
                &&& forall|i: int| 0 <= i < 8 ==> #[trigger] resp[i] == req[i]
                &&& ends_with_its_checksum(resp, 8)
            },
            Some(ModbusError::ShortResponse(n)) => n == resp.len() as usize && (resp.len() < 5
                || resp.len() < 8 && resp[0] == req[0] && resp[1] < 128),
            Some(ModbusError::BadSlave(a)) => resp.len() >= 5 && a == resp[0] && a != req[0],
            Some(ModbusError::Exception(c)) => {
                &&& resp.len() >= 5
                &&& resp[0] == req[0]
                &&& resp[1] >= 128
                &&& c == resp[2]
                &&& ends_with_its_checksum(resp, 5)
            },
            Some(ModbusError::BadHeader) => {
                &&& resp.len() >= 8
                &&& resp[0] == req[0]
                &&& resp[1] < 128
                &&& ends_with_its_checksum(resp, 8)
                &&& exists|i: int| 0 <= i < 8 && #[trigger] resp[i] != req[i]
            },
            Some(ModbusError::BadCrc) => {
                &&& resp.len() >= 5
                &&& resp[0] == req[0]
                &&& if resp[1] >= 128 {
                    !ends_with_its_checksum(resp, 5)
                } else {
                    resp.len() >= 8 && !ends_with_its_checksum(resp, 8)
                }
            },
        },
{
    lemma_preamble(resp, req[0]);
    if resp.len() >= 8 {
        if resp.take(8) == req {
            assert forall|i: int| 0 <= i < 8 implies #[trigger] resp[i] == req[i] by {
                assert(resp[i] == resp.take(8)[i]);
            }
        } else if forall|i: int| 0 <= i < 8 ==> #[trigger] resp[i] == req[i] {
            assert(resp.take(8) =~= req);
        }
    }
}

/// The checksum after `n` bits: each shifts the lowest bit out, and folds the polynomial in
/// where it was set.
pub open spec fn shifted_out(c: u16, n: nat) -> u16
    decreases n,
{
    if n == 0 {
        c
    } else {
        let before = shifted_out(c, (n - 1) as nat);
        if before % 2 == 1 {
            (before / 2) ^ 0xA001
        } else {
            before / 2
        }
    }
}

proof fn lemma_shifted_out(c: u16, n: nat)
    ensures
        crc_bits(c, n) == shifted_out(c, n),
    decreases n,
{
    if n > 0 {
        lemma_shifted_out(c, (n - 1) as nat);
        let b = crc_bits(c, (n - 1) as nat);
        assert((b & 1 != 0) == (b % 2 == 1) && b >> 1 == b / 2) by (bit_vector);
    }
}

/// The checksum starts from all ones and goes byte by byte: each is folded in at the low
/// end and eight bits are shifted out.
pub proof fn checksum_goes_byte_by_byte(data: Seq<u8>, b: u8)
    ensures
        crc_of(Seq::empty()) == 0xFFFF,
        crc_of(data.push(b)) == shifted_out(crc_of(data) ^ (b as u16), 8),
{
    assert(data.push(b).drop_last() =~= data);
    lemma_shifted_out(crc_of(data) ^ (b as u16), 8);
}

} // verus!
