//! The AT command console on the USB serial port: how a typed line is
//! collected and what command it names.
use vstd::prelude::*;
use vstd::string::StringSliceAdditionalSpecFns;
use crate::text::{parse_u32_from_cmd, parse_i8_from_cmd, parse_u32_model, parse_i8_model, decimal, law_decimal_reads_back};

verus! {

/// The longest command line kept; further bytes are dropped.
pub const AT_LINE_MAX: usize = 128;

/// What an AT command line asks for, with its argument checked.
#[derive(Debug, Clone, Copy, PartialEq, Eq, Structural)]
pub enum AtCommand {
    Version,
    Status,
    NodeId,
    Mac,
    SetFrequency(u32),
    FrequencyInvalid,
    SetSpreadingFactor(u8),
    SpreadingFactorOutOfRange,
    SpreadingFactorInvalid,
    SetTxPower(i8),
    TxPowerOutOfRange,
    TxPowerInvalid,
    ResetRadio,
    StartRx,
    Rssi,
    SwitchProtocol,
    SetRepeater(bool),
    RepeaterBadValue,
    RepeaterMissingValue,
    RepeaterStatus,
    SetWifi(bool),
    WifiBadValue,
    WifiMissingValue,
    WifiStatus,
    Contacts,
    OtaBegin,
    OtaStatus,
    Power,
    FactoryReset,
    Ping,
    Help,
    Unknown,
}

pub open spec fn upper(b: u8) -> u8 {
    if 97 <= b <= 122 { (b - 32) as u8 } else { b }
}

/// The command as matched: the first 128 bytes of the line, upper-cased.
pub open spec fn command_text(line: Seq<u8>) -> Seq<u8> {
    let n: int = if line.len() < 128 { line.len() as int } else { 128 };
    Seq::new(n as nat, |i: int| upper(line[i]))
}

/// The bytes of a keyword.
pub open spec fn kw(s: &str) -> Seq<u8> {
    s.spec_bytes()
}

pub open spec fn starts(cmd: Seq<u8>, p: Seq<u8>) -> bool {
    p.len() <= cmd.len() && cmd.take(p.len() as int) == p
}

/// A spreading factor argument: 7 to 12.
pub open spec fn sf_command(arg: Seq<u8>) -> AtCommand {
    match parse_u32_model(arg) {
        Some(sf) => if 7 <= sf <= 12 {
            AtCommand::SetSpreadingFactor(sf as u8)
        } else {
            AtCommand::SpreadingFactorOutOfRange
        },
        None => AtCommand::SpreadingFactorInvalid,
    }
}

/// A transmit power argument: -9 to +22 dBm.
pub open spec fn power_command(arg: Seq<u8>) -> AtCommand {
    match parse_i8_model(arg) {
        Some(p) => if -9 <= p <= 22 {
            AtCommand::SetTxPower(p)
        } else {
            AtCommand::TxPowerOutOfRange
        },
        None => AtCommand::TxPowerInvalid,
    }
}

/// An on/off switch: the byte at `at`, '1' or '0'.
pub open spec fn switch_value(cmd: Seq<u8>, at: int) -> Option<Option<bool>> {
    if cmd.len() > at {
        if cmd[at] == 49u8 {
            Some(Some(true))
        } else if cmd[at] == 48u8 {
            Some(Some(false))
        } else {
            Some(None)
        }
    } else {
        None
    }
}

/// The command an upper-cased line names; the keywords are tried in a
/// fixed order, so that "AT+REPEATER=" is seen before "AT+REPEATER".
pub open spec fn at_model(cmd: Seq<u8>) -> AtCommand {
    if starts(cmd, kw("AT+VERSION")) || starts(cmd, kw("ATI")) {
        AtCommand::Version
    } else if starts(cmd, kw("AT+STATUS")) {
        AtCommand::Status
    } else if starts(cmd, kw("AT+NODEID")) {
        AtCommand::NodeId
    } else if starts(cmd, kw("AT+MAC")) {
        AtCommand::Mac
    } else if starts(cmd, kw("AT+FREQ=")) {
        match parse_u32_model(cmd.skip(8)) {
            Some(f) => AtCommand::SetFrequency(f),
            None => AtCommand::FrequencyInvalid,
        }
    } else if starts(cmd, kw("AT+SF=")) {
        sf_command(cmd.skip(6))
    } else if starts(cmd, kw("AT+TXPOWER=")) {
        power_command(cmd.skip(11))
    } else if starts(cmd, kw("AT+RESET")) {
        AtCommand::ResetRadio
    } else if starts(cmd, kw("AT+RX")) {
        AtCommand::StartRx
    } else if starts(cmd, kw("AT+RSSI")) {
        AtCommand::Rssi
    } else if starts(cmd, kw("AT+SWITCH")) {
        AtCommand::SwitchProtocol
    } else if starts(cmd, kw("AT+REPEATER=")) {
        match switch_value(cmd, 12) {
            Some(Some(on)) => AtCommand::SetRepeater(on),
            Some(None) => AtCommand::RepeaterBadValue,
            None => AtCommand::RepeaterMissingValue,
        }
    } else if starts(cmd, kw("AT+REPEATER")) {
        AtCommand::RepeaterStatus
    } else if starts(cmd, kw("AT+WIFI=")) {
        match switch_value(cmd, 8) {
            Some(Some(on)) => AtCommand::SetWifi(on),
            Some(None) => AtCommand::WifiBadValue,
            None => AtCommand::WifiMissingValue,
        }
    } else if starts(cmd, kw("AT+WIFI")) {
        AtCommand::WifiStatus
    } else if starts(cmd, kw("AT+CONTACTS")) {
        AtCommand::Contacts
    } else if starts(cmd, kw("AT+OTABEGIN")) {
        AtCommand::OtaBegin
    } else if starts(cmd, kw("AT+OTASTATUS")) {
        AtCommand::OtaStatus
    } else if starts(cmd, kw("AT+POWER")) {
        AtCommand::Power
    } else if starts(cmd, kw("AT+FACTORYRESET")) {
        AtCommand::FactoryReset
    } else if cmd == kw("AT") {
        AtCommand::Ping
    } else if starts(cmd, kw("AT+HELP")) || starts(cmd, kw("AT?")) {
        AtCommand::Help
    } else {
        AtCommand::Unknown
    }
}

/// Law: commands are matched without regard to case: a line and its
/// upper-cased form name the same command.
pub proof fn law_case_insensitive(line: Seq<u8>)
    ensures
        at_model(command_text(Seq::new(line.len(), |i: int| upper(line[i])))) == at_model(command_text(line)),
{
    let up = Seq::new(line.len(), |i: int| upper(line[i]));
    assert(command_text(up) =~= command_text(line));
}

proof fn lemma_kw_ascii(s: &str)
    requires
        vstd::string::is_ascii(s),
    ensures
        kw(s) == Seq::new(s@.len(), |i: int| s@[i] as u8),
{
    vstd::string::is_ascii_spec_bytes(s);
}

proof fn lemma_not_starts(cmd: Seq<u8>, p: Seq<u8>, j: int)
    requires
        0 <= j < p.len(),
        j < cmd.len(),
        cmd[j] != p[j],
    ensures
        !starts(cmd, p),
{
    if starts(cmd, p) {
        assert(cmd.take(p.len() as int)[j] == p[j]);
    }
}

/// The bytes of "AT+WIFI=".
pub open spec fn wifi_switch_prefix() -> Seq<u8> {
    seq![65u8, 84u8, 43u8, 87u8, 73u8, 70u8, 73u8, 61u8]
}

/// The bytes of "AT+REPEATER=".
pub open spec fn repeater_switch_prefix() -> Seq<u8> {
    seq![65u8, 84u8, 43u8, 82u8, 69u8, 80u8, 69u8, 65u8, 84u8, 69u8, 82u8, 61u8]
}

/// The keywords matched before "AT+REPEATER=" do not match a command that
/// starts with "AT+REPEATER=" or "AT+WIFI=" (`pre`).
proof fn lemma_early_keywords_miss(cmd: Seq<u8>, pre: Seq<u8>)
    requires
        pre == wifi_switch_prefix() || pre == repeater_switch_prefix(),
        cmd.len() > pre.len(),
        cmd.take(pre.len() as int) == pre,
    ensures
        !starts(cmd, kw("AT+VERSION")),
        !starts(cmd, kw("ATI")),
        !starts(cmd, kw("AT+STATUS")),
        !starts(cmd, kw("AT+NODEID")),
        !starts(cmd, kw("AT+MAC")),
        !starts(cmd, kw("AT+FREQ=")),
        !starts(cmd, kw("AT+SF=")),
        !starts(cmd, kw("AT+TXPOWER=")),
        !starts(cmd, kw("AT+RESET")),
        !starts(cmd, kw("AT+RX")),
        !starts(cmd, kw("AT+RSSI")),
        !starts(cmd, kw("AT+SWITCH")),
{
    assert(cmd[2] == pre[2] && cmd[3] == pre[3] && cmd[4] == pre[4] && cmd[5] == pre[5]) by {
        assert(cmd.take(pre.len() as int)[2] == cmd[2]);
        assert(cmd.take(pre.len() as int)[3] == cmd[3]);
        assert(cmd.take(pre.len() as int)[4] == cmd[4]);
        assert(cmd.take(pre.len() as int)[5] == cmd[5]);
    }
    reveal_strlit("AT+VERSION");
    lemma_kw_ascii("AT+VERSION");
    lemma_not_starts(cmd, kw("AT+VERSION"), 3);
    reveal_strlit("ATI");
    lemma_kw_ascii("ATI");
    lemma_not_starts(cmd, kw("ATI"), 2);
    reveal_strlit("AT+STATUS");
    lemma_kw_ascii("AT+STATUS");
    lemma_not_starts(cmd, kw("AT+STATUS"), 3);
    reveal_strlit("AT+NODEID");
    lemma_kw_ascii("AT+NODEID");
    lemma_not_starts(cmd, kw("AT+NODEID"), 3);
    reveal_strlit("AT+MAC");
    lemma_kw_ascii("AT+MAC");
    lemma_not_starts(cmd, kw("AT+MAC"), 3);
    reveal_strlit("AT+FREQ=");
    lemma_kw_ascii("AT+FREQ=");
    lemma_not_starts(cmd, kw("AT+FREQ="), 3);
    reveal_strlit("AT+SF=");
    lemma_kw_ascii("AT+SF=");
    lemma_not_starts(cmd, kw("AT+SF="), 3);
    reveal_strlit("AT+TXPOWER=");
    lemma_kw_ascii("AT+TXPOWER=");
    lemma_not_starts(cmd, kw("AT+TXPOWER="), 3);
    reveal_strlit("AT+RESET");
    lemma_kw_ascii("AT+RESET");
    if pre == wifi_switch_prefix() {
        lemma_not_starts(cmd, kw("AT+RESET"), 3);
    } else {
        lemma_not_starts(cmd, kw("AT+RESET"), 5);
    }
    reveal_strlit("AT+RX");
    lemma_kw_ascii("AT+RX");
    if pre == wifi_switch_prefix() {
        lemma_not_starts(cmd, kw("AT+RX"), 3);
    } else {
        lemma_not_starts(cmd, kw("AT+RX"), 4);
    }
    reveal_strlit("AT+RSSI");
    lemma_kw_ascii("AT+RSSI");
    if pre == wifi_switch_prefix() {
        lemma_not_starts(cmd, kw("AT+RSSI"), 3);
    } else {
        lemma_not_starts(cmd, kw("AT+RSSI"), 4);
    }
    reveal_strlit("AT+SWITCH");
    lemma_kw_ascii("AT+SWITCH");
    lemma_not_starts(cmd, kw("AT+SWITCH"), 3);
}

/// Law: a line that starts, in any case, with "AT+WIFI=" followed by '0' or
/// '1' switches WiFi off or on.
pub proof fn law_wifi_switch(line: Seq<u8>)
    requires
        line.len() > 8,
        forall|i: int| 0 <= i < 8 ==> upper(#[trigger] line[i]) == wifi_switch_prefix()[i],
        line[8] == 48u8 || line[8] == 49u8,
    ensures
        at_model(command_text(line)) == AtCommand::SetWifi(line[8] == 49u8),
{
    let cmd = command_text(line);
    let pre = wifi_switch_prefix();
    assert(cmd.take(8) =~= pre);
    lemma_early_keywords_miss(cmd, pre);
    reveal_strlit("AT+REPEATER=");
    lemma_kw_ascii("AT+REPEATER=");
    assert(cmd[3] == pre[3]);
    lemma_not_starts(cmd, kw("AT+REPEATER="), 3);
    reveal_strlit("AT+REPEATER");
    lemma_kw_ascii("AT+REPEATER");
    lemma_not_starts(cmd, kw("AT+REPEATER"), 3);
    reveal_strlit("AT+WIFI=");
    lemma_kw_ascii("AT+WIFI=");
    assert(kw("AT+WIFI=") =~= pre);
    assert(cmd[8] == line[8]);
}

/// Law: a line that starts, in any case, with "AT+REPEATER=" followed by
/// '0' or '1' switches the repeater off or on.
pub proof fn law_repeater_switch(line: Seq<u8>)
    requires
        line.len() > 12,
        forall|i: int| 0 <= i < 12 ==> upper(#[trigger] line[i]) == repeater_switch_prefix()[i],
        line[12] == 48u8 || line[12] == 49u8,
    ensures
        at_model(command_text(line)) == AtCommand::SetRepeater(line[12] == 49u8),
{
    let cmd = command_text(line);
    let pre = repeater_switch_prefix();
    assert(cmd.take(12) =~= pre);
    lemma_early_keywords_miss(cmd, pre);
    reveal_strlit("AT+REPEATER=");
    lemma_kw_ascii("AT+REPEATER=");
    assert(kw("AT+REPEATER=") =~= pre);
    assert(cmd[12] == line[12]);
}

/// The bytes of "AT+SF=".
pub open spec fn sf_prefix() -> Seq<u8> {
    seq![65u8, 84u8, 43u8, 83u8, 70u8, 61u8]
}

/// The bytes of "AT+FREQ=".
pub open spec fn freq_prefix() -> Seq<u8> {
    seq![65u8, 84u8, 43u8, 70u8, 82u8, 69u8, 81u8, 61u8]
}

proof fn lemma_upper_command_is_itself(line: Seq<u8>, pre: Seq<u8>, n: u32)
    requires
        line == pre + decimal(n as nat),
        pre.len() <= 8,
        forall|i: int| 0 <= i < pre.len() ==> !(97 <= #[trigger] pre[i] <= 122),
    ensures
        command_text(line) == line,
        line.skip(pre.len() as int) == decimal(n as nat),
{
    law_decimal_reads_back(n);
    assert forall|i: int| 0 <= i < line.len() implies upper(#[trigger] line[i]) == line[i] by {
        if i >= pre.len() {
            assert(line[i] == decimal(n as nat)[i - pre.len()]);
        }
    }
    assert(command_text(line) =~= line);
    assert(line.skip(pre.len() as int) =~= decimal(n as nat));
}

proof fn lemma_early_argument_keywords(cmd: Seq<u8>, pre: Seq<u8>)
    requires
        pre == sf_prefix() || pre == freq_prefix(),
        cmd.len() > pre.len(),
        cmd.take(pre.len() as int) == pre,
    ensures
        !starts(cmd, kw("AT+VERSION")),
        !starts(cmd, kw("ATI")),
        !starts(cmd, kw("AT+STATUS")),
        !starts(cmd, kw("AT+NODEID")),
        !starts(cmd, kw("AT+MAC")),
        pre == sf_prefix() ==> !starts(cmd, kw("AT+FREQ=")) && starts(cmd, kw("AT+SF=")),
        pre == freq_prefix() ==> starts(cmd, kw("AT+FREQ=")),
{
    assert(cmd[2] == pre[2] && cmd[3] == pre[3] && cmd[4] == pre[4]) by {
        assert(cmd.take(pre.len() as int)[2] == cmd[2]);
        assert(cmd.take(pre.len() as int)[3] == cmd[3]);
        assert(cmd.take(pre.len() as int)[4] == cmd[4]);
    }
    reveal_strlit("AT+VERSION");
    lemma_kw_ascii("AT+VERSION");
    lemma_not_starts(cmd, kw("AT+VERSION"), 3);
    reveal_strlit("ATI");
    lemma_kw_ascii("ATI");
    lemma_not_starts(cmd, kw("ATI"), 2);
    reveal_strlit("AT+STATUS");
    lemma_kw_ascii("AT+STATUS");
    lemma_not_starts(cmd, kw("AT+STATUS"), 4);
    reveal_strlit("AT+NODEID");
    lemma_kw_ascii("AT+NODEID");
    lemma_not_starts(cmd, kw("AT+NODEID"), 3);
    reveal_strlit("AT+MAC");
    lemma_kw_ascii("AT+MAC");
    lemma_not_starts(cmd, kw("AT+MAC"), 3);
    reveal_strlit("AT+FREQ=");
    lemma_kw_ascii("AT+FREQ=");
    reveal_strlit("AT+SF=");
    lemma_kw_ascii("AT+SF=");
    if pre == sf_prefix() {
        lemma_not_starts(cmd, kw("AT+FREQ="), 3);
        assert(kw("AT+SF=") =~= pre);
    } else {
        assert(kw("AT+FREQ=") =~= pre);
    }
}

/// Law: "AT+SF=" followed by a number sets that spreading factor when it is
/// 7 to 12, and is refused as out of range otherwise.
pub proof fn law_spreading_factor_command(n: u32)
    ensures
        at_model(command_text(sf_prefix() + decimal(n as nat))) == (if 7 <= n <= 12 {
            AtCommand::SetSpreadingFactor(n as u8)
        } else {
            AtCommand::SpreadingFactorOutOfRange
        }),
{
    let pre = sf_prefix();
    let line = pre + decimal(n as nat);
    lemma_upper_command_is_itself(line, pre, n);
    law_decimal_reads_back(n);
    assert(line.take(6) =~= pre);
    lemma_early_argument_keywords(line, pre);
    assert(sf_command(line.skip(6)) == (if 7 <= n <= 12 {
        AtCommand::SetSpreadingFactor(n as u8)
    } else {
        AtCommand::SpreadingFactorOutOfRange
    }));
}

/// Law: "AT+FREQ=" followed by a number asks for that frequency in hertz.
pub proof fn law_frequency_command(n: u32)
    ensures
        at_model(command_text(freq_prefix() + decimal(n as nat))) == AtCommand::SetFrequency(n),
{
    let pre = freq_prefix();
    let line = pre + decimal(n as nat);
    lemma_upper_command_is_itself(line, pre, n);
    law_decimal_reads_back(n);
    assert(line.take(8) =~= pre);
    lemma_early_argument_keywords(line, pre);
}

proof fn lemma_keyword_len(s: &str)
    requires
        vstd::string::is_ascii(s),
    ensures
        kw(s).len() == s@.len(),
{
    vstd::string::is_ascii_spec_bytes(s);
}

fn upper_byte(b: u8) -> (r: u8)
    ensures
        r == upper(b),
{
    if b >= 97 && b <= 122 { b - 32 } else { b }
}

fn has_prefix(cmd: &[u8], p: &[u8]) -> (r: bool)
    ensures
        r == starts(cmd@, p@),
{
    if p.len() > cmd.len() {
        return false;
    }
    let mut i: usize = 0;
    while i < p.len()
        invariant
            p.len() <= cmd.len(),
            i <= p.len(),
            forall|j: int| 0 <= j < i ==> cmd@[j] == p@[j],
        decreases p.len() - i,
    {
        if cmd[i] != p[i] {
            assert(cmd@.take(p@.len() as int)[i as int] != p@[i as int]);
            return false;
        }
        i = i + 1;
    }
    assert(cmd@.take(p@.len() as int) =~= p@);
    true
}

fn same_bytes(a: &[u8], b: &[u8]) -> (r: bool)
    ensures
        r == (a@ == b@),
{
    if a.len() != b.len() {
        return false;
    }
    let r = has_prefix(a, b);
    assert(a@ =~= a@.take(b@.len() as int));
    r
}

fn kw_bytes(s: &str) -> (b: &[u8])
    ensures
        b@ == kw(s),
{
    s.as_bytes()
}

fn sf_argument(arg: &[u8]) -> (c: AtCommand)
    ensures
        c == sf_command(arg@),
{
    match parse_u32_from_cmd(arg) {
        Some(sf) => if sf >= 7 && sf <= 12 {
            AtCommand::SetSpreadingFactor(sf as u8)
        } else {
            AtCommand::SpreadingFactorOutOfRange
        },
        None => AtCommand::SpreadingFactorInvalid,
    }
}

fn power_argument(arg: &[u8]) -> (c: AtCommand)
    ensures
        c == power_command(arg@),
{
    match parse_i8_from_cmd(arg) {
        Some(p) => if p >= -9 && p <= 22 {
            AtCommand::SetTxPower(p)
        } else {
            AtCommand::TxPowerOutOfRange
        },
        None => AtCommand::TxPowerInvalid,
    }
}

fn switch_argument(cmd: &[u8], at: usize) -> (r: Option<Option<bool>>)
    ensures
        r == switch_value(cmd@, at as int),
{
    if cmd.len() > at {
        if cmd[at] == 0x31 {
            Some(Some(true))
        } else if cmd[at] == 0x30 {
            Some(Some(false))
        } else {
            Some(None)
        }
    } else {
        None
    }
}

/// Upper-cases the first 128 bytes of a typed line.
pub fn uppercase_command(line: &[u8]) -> (cmd: Vec<u8>)
    ensures
        cmd@ == command_text(line@),
{
    let n = if line.len() < AT_LINE_MAX { line.len() } else { AT_LINE_MAX };
    let mut cmd: Vec<u8> = Vec::new();
    for i in 0..n
        invariant
            n <= line.len(),
            n == command_text(line@).len(),
            cmd@ == command_text(line@).take(i as int),
    {
        cmd.push(upper_byte(line[i]));
        assert(command_text(line@).take(i + 1) =~= command_text(line@).take(i as int).push(
            upper(line@[i as int]),
        ));
    }
    assert(command_text(line@).take(n as int) =~= command_text(line@));
    cmd
}

/// The command a typed line names, matched without regard to case on its
/// first 128 bytes.
pub fn classify_at_command(line: &[u8]) -> (c: AtCommand)
    ensures
        c == at_model(command_text(line@)),
{
    let owned = uppercase_command(line);
    let cmd = owned.as_slice();
    if has_prefix(cmd, kw_bytes("AT+VERSION")) || has_prefix(cmd, kw_bytes("ATI")) {
        AtCommand::Version
    } else if has_prefix(cmd, kw_bytes("AT+STATUS")) {
        AtCommand::Status
    } else if has_prefix(cmd, kw_bytes("AT+NODEID")) {
        AtCommand::NodeId
    } else if has_prefix(cmd, kw_bytes("AT+MAC")) {
        AtCommand::Mac
    } else if has_prefix(cmd, kw_bytes("AT+FREQ=")) {
        proof {
            reveal_strlit("AT+FREQ=");
            lemma_keyword_len("AT+FREQ=");
        }
        match parse_u32_from_cmd(slice_from(cmd, 8)) {
            Some(f) => AtCommand::SetFrequency(f),
            None => AtCommand::FrequencyInvalid,
        }
    } else if has_prefix(cmd, kw_bytes("AT+SF=")) {
        proof {
            reveal_strlit("AT+SF=");
            lemma_keyword_len("AT+SF=");
        }
        sf_argument(slice_from(cmd, 6))
    } else if has_prefix(cmd, kw_bytes("AT+TXPOWER=")) {
        proof {
            reveal_strlit("AT+TXPOWER=");
            lemma_keyword_len("AT+TXPOWER=");
        }
        power_argument(slice_from(cmd, 11))
    } else if has_prefix(cmd, kw_bytes("AT+RESET")) {
        AtCommand::ResetRadio
    } else if has_prefix(cmd, kw_bytes("AT+RX")) {
        AtCommand::StartRx
    } else if has_prefix(cmd, kw_bytes("AT+RSSI")) {
        AtCommand::Rssi
    } else if has_prefix(cmd, kw_bytes("AT+SWITCH")) {
        AtCommand::SwitchProtocol
    } else if has_prefix(cmd, kw_bytes("AT+REPEATER=")) {
        match switch_argument(cmd, 12) {
            Some(Some(on)) => AtCommand::SetRepeater(on),
            Some(None) => AtCommand::RepeaterBadValue,
            None => AtCommand::RepeaterMissingValue,
        }
    } else if has_prefix(cmd, kw_bytes("AT+REPEATER")) {
        AtCommand::RepeaterStatus
    } else if has_prefix(cmd, kw_bytes("AT+WIFI=")) {
        match switch_argument(cmd, 8) {
            Some(Some(on)) => AtCommand::SetWifi(on),
            Some(None) => AtCommand::WifiBadValue,
            None => AtCommand::WifiMissingValue,
        }
    } else if has_prefix(cmd, kw_bytes("AT+WIFI")) {
        AtCommand::WifiStatus
    } else if has_prefix(cmd, kw_bytes("AT+CONTACTS")) {
        AtCommand::Contacts
    } else if has_prefix(cmd, kw_bytes("AT+OTABEGIN")) {
        AtCommand::OtaBegin
    } else if has_prefix(cmd, kw_bytes("AT+OTASTATUS")) {
        AtCommand::OtaStatus
    } else if has_prefix(cmd, kw_bytes("AT+POWER")) {
        AtCommand::Power
    } else if has_prefix(cmd, kw_bytes("AT+FACTORYRESET")) {
        AtCommand::FactoryReset
    } else if same_bytes(cmd, kw_bytes("AT")) {
        AtCommand::Ping
    } else if has_prefix(cmd, kw_bytes("AT+HELP")) || has_prefix(cmd, kw_bytes("AT?")) {
        AtCommand::Help
    } else {
        AtCommand::Unknown
    }
}

fn slice_from(s: &[u8], start: usize) -> (r: &[u8])
    requires
        start <= s@.len(),
    ensures
        r@ == s@.skip(start as int),
{
    let r = vstd::slice::slice_subrange(s, start, s.len());
    assert(r@ =~= s@.skip(start as int));
    r
}

} // verus!
