//! Self-test harness and exit protocol: probe outcomes are examined in
//! registration order, the first fault stops the run, and the result is
//! the code the emulator exit port is given.

use vstd::prelude::*;

use crate::serial::SerialChannel;

verus! {

/// The two-valued exit signal the hosting emulator understands.
#[derive(Debug, Clone, Copy, PartialEq, Eq, Structural)]
pub enum QemuExitCode {
    Success,
    Failed,
}

impl QemuExitCode {
    /// The numeric code written to the exit port for this outcome. The
    /// values are part of the external protocol: 0x10 reports success,
    /// 0x11 reports failure.
    pub open spec fn spec_code(self) -> u32 {
        match self {
            QemuExitCode::Success => 0x10,
            QemuExitCode::Failed => 0x11,
        }
    }

    /// The numeric code written to the exit port for this outcome.
    #[verifier::when_used_as_spec(spec_code)]
    pub fn code(self) -> (c: u32)
        ensures
            c == self.spec_code(),
    {
        match self {
            QemuExitCode::Success => 0x10,
            QemuExitCode::Failed => 0x11,
        }
    }
}

/// Every probe outcome in the sequence reports a pass.
pub open spec fn all_pass(outcomes: Seq<bool>) -> bool {
    forall|i: int| 0 <= i < outcomes.len() ==> outcomes[i]
}

/// What one harness run did: how many probes were executed and the single
/// exit signal the run ends with.
pub struct HarnessReport {
    pub executed: usize,
    pub exit_code: QemuExitCode,
}

/// The bytes of the sample probe's progress marker: "trivial
/// assertion... ", a line feed.
pub open spec fn trivial_marker() -> Seq<u8> {
    seq![
        116u8,
        114u8,
        105u8,
        118u8,
        105u8,
        97u8,
        108u8,
        32u8,
        97u8,
        115u8,
        115u8,
        101u8,
        114u8,
        116u8,
        105u8,
        111u8,
        110u8,
        46u8,
        46u8,
        46u8,
        32u8,
        10u8,
    ]
}

/// The sample probe: announces itself over the serial channel, then checks
/// an expectation that does not hold (one equals zero), so it reports a
/// fault; the closing marker that would follow a met expectation is never
/// emitted.
pub fn trivial_assertion(serial: &mut SerialChannel) -> (passed: bool)
    ensures
        !passed,
        final(serial).transcript() == old(serial).transcript() + trivial_marker(),
{
    let mut marker: Vec<u8> = Vec::new();
    marker.push(116);
    marker.push(114);
    marker.push(105);
    marker.push(118);
    marker.push(105);
    marker.push(97);
    marker.push(108);
    marker.push(32);
    marker.push(97);
    marker.push(115);
    marker.push(115);
    marker.push(101);
    marker.push(114);
    marker.push(116);
    marker.push(105);
    marker.push(111);
    marker.push(110);
    marker.push(46);
    marker.push(46);
    marker.push(46);
    marker.push(32);
    marker.push(10);
    proof {
        assert(marker@ =~= trivial_marker());
    }
    serial.write_bytes(marker.as_slice());
    let expected: u64 = 1;
    let actual: u64 = 0;
    let passed = expected == actual;
    if passed {
        let mut ok: Vec<u8> = Vec::new();
        ok.push(111);
        ok.push(107);
        ok.push(10);
        serial.write_bytes(ok.as_slice());
    }
    passed
}

/// Drive the probes in registration order. A probe that passed lets the
/// run continue; the first fault diverts the run to the exit protocol with
/// `Failed`, and the remaining probes are never examined. A run whose
/// probes all pass ends with `Success`. Exactly one exit signal comes out
/// of a run.
pub fn test_runner(outcomes: &Vec<bool>) -> (report: HarnessReport)
    ensures
        report.executed <= outcomes@.len(),
        report.exit_code == QemuExitCode::Success <==> all_pass(outcomes@),
        all_pass(outcomes@) ==> report.executed == outcomes@.len(),
        !all_pass(outcomes@) ==> {
            &&& report.exit_code == QemuExitCode::Failed
            &&& 0 < report.executed
            &&& !outcomes@[report.executed - 1]
            &&& forall|i: int| 0 <= i < report.executed - 1 ==> outcomes@[i]
        },
{
    let mut i: usize = 0;
    while i < outcomes.len()
        invariant
            i <= outcomes@.len(),
            forall|j: int| 0 <= j < i ==> outcomes@[j],
        decreases outcomes@.len() - i,
    {
        if !outcomes[i] {
            return HarnessReport { executed: i + 1, exit_code: QemuExitCode::Failed };
        }
        i = i + 1;
    }
    HarnessReport { executed: i, exit_code: QemuExitCode::Success }
}

/// Exactly one exit signal is issued for a run, and a run with zero
/// failing probes issues it with the success value 0x10.
pub proof fn lemma_exit_protocol_encoding(outcomes: Seq<bool>, report: HarnessReport)
    requires
        report.exit_code == QemuExitCode::Success <==> all_pass(outcomes),
    ensures
        all_pass(outcomes) ==> report.exit_code.spec_code() == 0x10,
        !all_pass(outcomes) ==> report.exit_code.spec_code() == 0x11,
{
}

/// The decimal digits of `n`, most significant first.
pub open spec fn decimal_digits(n: nat) -> Seq<u8>
    decreases n,
{
    if n < 10 {
        seq![(48 + n) as u8]
    } else {
        decimal_digits(n / 10).push((48 + n % 10) as u8)
    }
}

/// Append the decimal digits of `n` to `out`.
pub fn push_decimal(n: u64, out: &mut Vec<u8>)
    ensures
        final(out)@ == old(out)@ + decimal_digits(n as nat),
    decreases n,
{
    if n < 10 {
        out.push(48 + (n as u8));
    } else {
        push_decimal(n / 10, out);
        out.push(48 + ((n % 10) as u8));
    }
}

/// The bytes of the probe-count announcement: "Running ", the decimal
/// count, " tests", a line feed.
pub open spec fn running_message(n: nat) -> Seq<u8> {
    seq![82u8, 117u8, 110u8, 110u8, 105u8, 110u8, 103u8, 32u8] + decimal_digits(n) + seq![
        32u8,
        116u8,
        101u8,
        115u8,
        116u8,
        115u8,
        10u8,
    ]
}

/// The bytes of the fault marker line: "FAILED", a line feed.
pub open spec fn failed_message() -> Seq<u8> {
    seq![70u8, 65u8, 73u8, 76u8, 69u8, 68u8, 10u8]
}

/// Build the probe-count announcement for `n` probes.
pub fn build_running_message(n: u64) -> (msg: Vec<u8>)
    ensures
        msg@ == running_message(n as nat),
{
    let mut msg: Vec<u8> = Vec::new();
    msg.push(82);
    msg.push(117);
    msg.push(110);
    msg.push(110);
    msg.push(105);
    msg.push(110);
    msg.push(103);
    msg.push(32);
    push_decimal(n, &mut msg);
    msg.push(32);
    msg.push(116);
    msg.push(101);
    msg.push(115);
    msg.push(116);
    msg.push(115);
    msg.push(10);
    proof {
        assert(msg@ =~= running_message(n as nat));
    }
    msg
}

/// The bytes of the fault description prefix: "Error: ".
pub open spec fn error_prefix() -> Seq<u8> {
    seq![69u8, 114u8, 114u8, 111u8, 114u8, 58u8, 32u8]
}

/// Announce the probe count over the serial channel, then drive the
/// probes as `test_runner` does.
pub fn run_harness(serial: &mut SerialChannel, outcomes: &Vec<bool>) -> (report: HarnessReport)
    ensures
        final(serial).transcript() == old(serial).transcript() + running_message(
            outcomes@.len(),
        ),
        report.executed <= outcomes@.len(),
        report.exit_code == QemuExitCode::Success <==> all_pass(outcomes@),
        all_pass(outcomes@) ==> report.executed == outcomes@.len(),
        !all_pass(outcomes@) ==> {
            &&& report.exit_code == QemuExitCode::Failed
            &&& 0 < report.executed
            &&& !outcomes@[report.executed - 1]
            &&& forall|i: int| 0 <= i < report.executed - 1 ==> outcomes@[i]
        },
{
    let msg = build_running_message(outcomes.len() as u64);
    serial.write_bytes(msg.as_slice());
    test_runner(outcomes)
}

/// The test-mode fault path: report the fault marker and the description
/// over the serial channel and hand back the failure exit signal.
pub fn fault_report(serial: &mut SerialChannel, description: &[u8]) -> (code: QemuExitCode)
    ensures
        code == QemuExitCode::Failed,
        final(serial).transcript() == old(serial).transcript() + failed_message() + error_prefix()
            + description@ + seq![10u8],
{
    let marker = build_failed_message();
    serial.write_bytes(marker.as_slice());
    let mut prefix: Vec<u8> = Vec::new();
    prefix.push(69);
    prefix.push(114);
    prefix.push(114);
    prefix.push(111);
    prefix.push(114);
    prefix.push(58);
    prefix.push(32);
    proof {
        assert(prefix@ =~= error_prefix());
    }
    serial.write_bytes(prefix.as_slice());
    serial.write_bytes(description);
    serial.write_byte(10);
    proof {
        assert(old(serial).transcript() + failed_message() + error_prefix() + description@ + seq![
            10u8,
        ] =~= ((old(serial).transcript() + failed_message() + error_prefix()) + description@).push(
            10u8,
        ));
    }
    QemuExitCode::Failed
}

/// Build the fault marker line.
pub fn build_failed_message() -> (msg: Vec<u8>)
    ensures
        msg@ == failed_message(),
{
    let mut msg: Vec<u8> = Vec::new();
    msg.push(70);
    msg.push(65);
    msg.push(73);
    msg.push(76);
    msg.push(69);
    msg.push(68);
    msg.push(10);
    proof {
        assert(msg@ =~= failed_message());
    }
    msg
}

} // verus!
