//! The course of one conversion: decode, verify if asked to, encode in
//! the opposite encoding, write.
//!
//! Reading, decoding, verifying, encoding and writing are done by the
//! caller. A `Conversion` decides: it names the next step, takes whether
//! that step succeeded, and moves on or fails for good.

use crate::error::ConvertError;
use crate::format::{lemma_opposite_swaps, BytecodeFormat};
use crate::source::{lemma_output_has_opposite_format, InputSource, InputSourceView};
use vstd::prelude::*;

verus! {

/// How far a conversion has come.
#[derive(Clone, Copy, Debug, PartialEq, Eq, Structural)]
pub enum Stage {
    /// Nothing has been done yet.
    Unresolved,
    /// The module was decoded and awaits verification.
    Decoded,
    /// The module was decoded and has passed verification.
    Verified,
    /// The module was decoded, and verification was not asked for.
    Skipped,
    /// The module was encoded in the output encoding.
    Encoded,
    /// The output file was written: the conversion succeeded.
    Written,
    /// A step failed: the conversion is over and nothing more is done.
    Failed(ConvertError),
}

/// What the caller of a conversion has to do next.
#[derive(Clone, Copy, Debug, PartialEq, Eq)]
pub enum Step {
    /// Read the input file and decode it from the given encoding.
    Decode(BytecodeFormat),
    /// Verify the decoded module.
    Verify,
    /// Encode the module in the given encoding.
    Encode(BytecodeFormat),
    /// Write the encoded module to the output path.
    Write,
    /// Nothing is left to do: the conversion ended with the given result.
    Finish(Result<(), ConvertError>),
}

/// A conversion under way.
#[derive(Debug)]
pub struct Conversion {
    input: BytecodeFormat,
    output_path: String,
    verify: bool,
    stage: Stage,
}

/// What a `Conversion` stands for.
pub ghost struct ConversionView {
    /// The encoding of the input file.
    pub input: BytecodeFormat,
    /// The characters of the path of the output file.
    pub output_path: Seq<char>,
    /// Whether the module is verified before it is encoded.
    pub verify: bool,
    /// How far the conversion has come.
    pub stage: Stage,
}

impl ConversionView {
    /// The conversion of `source` into the directory `output_dir`, before
    /// its first step.
    pub open spec fn start(
        source: InputSourceView,
        output_dir: Seq<char>,
        verify: bool,
    ) -> ConversionView {
        ConversionView {
            input: source.format,
            output_path: source.output_path(output_dir),
            verify,
            stage: Stage::Unresolved,
        }
    }

    /// The step that is due at this stage.
    pub open spec fn step(self) -> Step {
        match self.stage {
            Stage::Unresolved => Step::Decode(self.input),
            Stage::Decoded => Step::Verify,
            Stage::Verified | Stage::Skipped => Step::Encode(self.input.opposite()),
            Stage::Encoded => Step::Write,
            Stage::Written => Step::Finish(Ok(())),
            Stage::Failed(e) => Step::Finish(Err(e)),
        }
    }

    /// The stage that follows once the step that is due has succeeded or
    /// failed. A conversion that is over stays as it is.
    pub open spec fn stage_after(self, succeeded: bool) -> Stage {
        match self.stage {
            Stage::Unresolved => if !succeeded {
                Stage::Failed(ConvertError::Decode)
            } else if self.verify {
                Stage::Decoded
            } else {
                Stage::Skipped
            },
            Stage::Decoded => if succeeded {
                Stage::Verified
            } else {
                Stage::Failed(ConvertError::Verify)
            },
            Stage::Verified | Stage::Skipped => if succeeded {
                Stage::Encoded
            } else {
                Stage::Failed(ConvertError::Encode)
            },
            Stage::Encoded => if succeeded {
                Stage::Written
            } else {
                Stage::Failed(ConvertError::Write)
            },
            Stage::Written => Stage::Written,
            Stage::Failed(e) => Stage::Failed(e),
        }
    }

    /// The conversion after the step that is due has succeeded or failed.
    pub open spec fn advance(self, succeeded: bool) -> ConversionView {
        ConversionView { stage: self.stage_after(succeeded), ..self }
    }

    /// The conversion after its steps have ended as `outcomes` says, one
    /// after the other.
    pub open spec fn run(self, outcomes: Seq<bool>) -> ConversionView
        decreases outcomes.len(),
    {
        if outcomes.len() == 0 {
            self
        } else {
            self.run(outcomes.drop_last()).advance(outcomes.last())
        }
    }

    /// The result of the conversion, once it is over.
    pub open spec fn result(self) -> Option<Result<(), ConvertError>> {
        match self.stage {
            Stage::Written => Some(Ok(())),
            Stage::Failed(e) => Some(Err(e)),
            _ => None,
        }
    }
}

impl View for Conversion {
    type V = ConversionView;

    closed spec fn view(&self) -> ConversionView {
        ConversionView {
            input: self.input,
            output_path: self.output_path@,
            verify: self.verify,
            stage: self.stage,
        }
    }
}

impl InputSource {
    /// Begins the conversion of this file into the directory `output_dir`.
    /// With `verify` the module is verified before it is encoded, and is
    /// not written unless it passes.
    pub fn convert(&self, output_dir: &str, verify: bool) -> (conversion: Conversion)
        ensures
            conversion@ == ConversionView::start(self@, output_dir@, verify),
    {
        Conversion {
            input: self.format(),
            output_path: self.output_path(output_dir),
            verify,
            stage: Stage::Unresolved,
        }
    }
}

impl Conversion {
    /// Returns how far the conversion has come.
    pub fn stage(&self) -> (stage: Stage)
        ensures
            stage == self@.stage,
    {
        self.stage
    }

    /// Returns the path that the output is written to.
    pub fn output_path(&self) -> (path: &str)
        ensures
            path@ == self@.output_path,
    {
        self.output_path.as_str()
    }

    /// Returns the step that the caller has to do next.
    pub fn next_step(&self) -> (step: Step)
        ensures
            step == self@.step(),
    {
        match self.stage {
            Stage::Unresolved => Step::Decode(self.input),
            Stage::Decoded => Step::Verify,
            Stage::Verified | Stage::Skipped => Step::Encode(self.input.opposite()),
            Stage::Encoded => Step::Write,
            Stage::Written => Step::Finish(Ok(())),
            Stage::Failed(e) => Step::Finish(Err(e)),
        }
    }

    /// Takes note of how the step that was due has ended, and moves on to
    /// the next stage or fails for good.
    pub fn advance(&mut self, succeeded: bool)
        ensures
            final(self)@ == old(self)@.advance(succeeded),
    {
        let next = match self.stage {
            Stage::Unresolved => if !succeeded {
                Stage::Failed(ConvertError::Decode)
            } else if self.verify {
                Stage::Decoded
            } else {
                Stage::Skipped
            },
            Stage::Decoded => if succeeded {
                Stage::Verified
            } else {
                Stage::Failed(ConvertError::Verify)
            },
            Stage::Verified | Stage::Skipped => if succeeded {
                Stage::Encoded
            } else {
                Stage::Failed(ConvertError::Encode)
            },
            Stage::Encoded => if succeeded {
                Stage::Written
            } else {
                Stage::Failed(ConvertError::Write)
            },
            Stage::Written => Stage::Written,
            Stage::Failed(e) => Stage::Failed(e),
        };
        self.stage = next;
    }

    /// Returns the result of the conversion, or `None` while steps are left.
    pub fn result(&self) -> (result: Option<Result<(), ConvertError>>)
        ensures
            result == self@.result(),
    {
        match self.stage {
            Stage::Written => Some(Ok(())),
            Stage::Failed(e) => Some(Err(e)),
            _ => None,
        }
    }
}

/// Every outcome in `outcomes` is a success.
pub open spec fn all_succeeded(outcomes: Seq<bool>) -> bool {
    forall|i: int| 0 <= i < outcomes.len() ==> outcomes[i]
}

/// The outcome at `k` is the first failure in `outcomes`.
pub open spec fn first_failure_at(outcomes: Seq<bool>, k: int) -> bool {
    &&& 0 <= k < outcomes.len()
    &&& !outcomes[k]
    &&& forall|i: int| 0 <= i < k ==> outcomes[i]
}

/// The number of steps that come before the output is written: decode
/// and encode, and verify between them where it is asked for.
pub open spec fn steps_before_write(verify: bool) -> int {
    if verify {
        3
    } else {
        2
    }
}

/// The error of a conversion whose step number `k` failed, counted from 0.
pub open spec fn error_of_step(verify: bool, k: int) -> ConvertError {
    if k == 0 {
        ConvertError::Decode
    } else if verify && k == 1 {
        ConvertError::Verify
    } else if k == steps_before_write(verify) - 1 {
        ConvertError::Encode
    } else {
        ConvertError::Write
    }
}

/// Reporting one more outcome advances the conversion once more.
pub proof fn lemma_run_push(conversion: ConversionView, outcomes: Seq<bool>, succeeded: bool)
    ensures
        conversion.run(outcomes.push(succeeded)) == conversion.run(outcomes).advance(succeeded),
{
    assert(outcomes.push(succeeded).drop_last() =~= outcomes);
}

/// What the stage of a conversion tells about the outcomes that led to it.
proof fn lemma_stage_tells_outcomes(conversion: ConversionView, outcomes: Seq<bool>)
    requires
        conversion.stage == Stage::Unresolved,
    ensures
        ({
            let after = conversion.run(outcomes);
            let verify = conversion.verify;
            let last = steps_before_write(verify);
            &&& after.input == conversion.input
            &&& after.output_path == conversion.output_path
            &&& after.verify == verify
            &&& match after.stage {
                Stage::Unresolved => outcomes.len() == 0,
                Stage::Decoded => verify && outcomes.len() == 1 && all_succeeded(outcomes),
                Stage::Skipped => !verify && outcomes.len() == 1 && all_succeeded(outcomes),
                Stage::Verified => verify && outcomes.len() == 2 && all_succeeded(outcomes),
                Stage::Encoded => outcomes.len() == last && all_succeeded(outcomes),
                Stage::Written => outcomes.len() > last && all_succeeded(outcomes.take(last + 1)),
                Stage::Failed(e) => exists|k: int|
                    k <= last && #[trigger] first_failure_at(outcomes, k) && e == error_of_step(
                        verify,
                        k,
                    ),
            }
        }),
    decreases outcomes.len(),
{
    if outcomes.len() > 0 {
        let earlier = outcomes.drop_last();
        let before = conversion.run(earlier);
        let last = steps_before_write(conversion.verify);
        lemma_stage_tells_outcomes(conversion, earlier);
        assert(forall|i: int| 0 <= i < earlier.len() ==> earlier[i] == outcomes[i]);
        match before.stage {
            Stage::Written => {
                assert(outcomes.take(last + 1) =~= earlier.take(last + 1));
            },
            Stage::Failed(e) => {
                let k = choose|k: int|
                    k <= last && #[trigger] first_failure_at(earlier, k) && e == error_of_step(
                        conversion.verify,
                        k,
                    );
                assert(first_failure_at(outcomes, k));
            },
            Stage::Encoded => {
                if outcomes.last() {
                    assert(outcomes.take(last + 1) =~= outcomes);
                } else {
                    assert(first_failure_at(outcomes, last));
                }
            },
            _ => {
                if !outcomes.last() {
                    assert(first_failure_at(outcomes, outcomes.len() - 1));
                }
            },
        }
    }
}

/// Steps change the stage of a conversion and nothing else: the input
/// encoding, the output path and the verification flag stay as they
/// were at the start.
pub proof fn lemma_run_keeps_inputs(conversion: ConversionView, outcomes: Seq<bool>)
    ensures
        conversion.run(outcomes).input == conversion.input,
        conversion.run(outcomes).output_path == conversion.output_path,
        conversion.run(outcomes).verify == conversion.verify,
    decreases outcomes.len(),
{
    if outcomes.len() > 0 {
        lemma_run_keeps_inputs(conversion, outcomes.drop_last());
    }
}

/// A conversion that is over stays over: whatever is reported to it, its
/// stage and its result no longer change.
pub proof fn lemma_result_is_final(conversion: ConversionView, outcomes: Seq<bool>)
    requires
        conversion.result() is Some,
    ensures
        conversion.run(outcomes) == conversion,
    decreases outcomes.len(),
{
    if outcomes.len() > 0 {
        lemma_result_is_final(conversion, outcomes.drop_last());
    }
}

/// The output is written only once every step before it has succeeded:
/// `Write` is due exactly after decoding, verification where it is asked
/// for, and encoding have all been reported as successes.
pub proof fn lemma_write_is_due(conversion: ConversionView, outcomes: Seq<bool>)
    requires
        conversion.stage == Stage::Unresolved,
    ensures
        conversion.run(outcomes).step() == Step::Write <==> outcomes.len() == steps_before_write(
            conversion.verify,
        ) && all_succeeded(outcomes),
{
    lemma_stage_tells_outcomes(conversion, outcomes);
    let after = conversion.run(outcomes);
    let last = steps_before_write(conversion.verify);
    if outcomes.len() == last && all_succeeded(outcomes) {
        match after.stage {
            Stage::Written => {},
            Stage::Failed(e) => {
                let k = choose|k: int|
                    k <= last && #[trigger] first_failure_at(outcomes, k) && e == error_of_step(
                        conversion.verify,
                        k,
                    );
                assert(outcomes[k]);
            },
            _ => {},
        }
    }
}

/// The result of a conversion, for every way its steps can end. It
/// succeeds exactly when all of its steps succeeded, the write
/// included; it fails with the error of the first step that failed; and
/// it has no result while all reported steps succeeded and some are left.
pub proof fn lemma_result_of_run(conversion: ConversionView, outcomes: Seq<bool>)
    requires
        conversion.stage == Stage::Unresolved,
    ensures
        ({
            let result = conversion.run(outcomes).result();
            let verify = conversion.verify;
            let last = steps_before_write(verify);
            &&& result == Some(Ok::<(), ConvertError>(())) <==> outcomes.len() > last
                && all_succeeded(outcomes.take(last + 1))
            &&& result is None <==> outcomes.len() <= last && all_succeeded(outcomes)
            &&& forall|k: int|
                k <= last && #[trigger] first_failure_at(outcomes, k) ==> result == Some(
                    Err::<(), ConvertError>(error_of_step(verify, k)),
                )
        }),
{
    lemma_stage_tells_outcomes(conversion, outcomes);
    let after = conversion.run(outcomes);
    let verify = conversion.verify;
    let last = steps_before_write(verify);
    if let Stage::Failed(e) = after.stage {
        let j = choose|j: int|
            j <= last && #[trigger] first_failure_at(outcomes, j) && e == error_of_step(verify, j);
        assert(!outcomes[j]);
        if outcomes.len() > last {
            assert(outcomes.take(last + 1)[j] == outcomes[j]);
        }
        assert forall|k: int| k <= last && #[trigger] first_failure_at(outcomes, k) implies k
            == j by {
            if k < j {
                assert(outcomes[k]);
            } else if j < k {
                assert(outcomes[j]);
            }
        }
    } else {
        assert forall|k: int| k <= last && #[trigger] first_failure_at(outcomes, k) implies false by {
            if outcomes.len() > last {
                assert(outcomes.take(last + 1)[k] == outcomes[k]);
            } else {
                assert(outcomes[k]);
            }
        }
    }
}

/// After a step was reported as failed nothing more is asked of the
/// caller: the step that is due is `Finish`, so no output is written for
/// that input any more.
pub proof fn lemma_nothing_follows_failure(
    conversion: ConversionView,
    outcomes: Seq<bool>,
    failed: int,
)
    requires
        conversion.stage == Stage::Unresolved,
        0 <= failed < outcomes.len(),
        !outcomes[failed],
    ensures
        conversion.run(outcomes).step() is Finish,
        conversion.run(outcomes).result() is Some,
{
    lemma_stage_tells_outcomes(conversion, outcomes);
}

/// With verification, a module that does not pass is never written:
/// once decoding has succeeded and verification has failed, `Write` is
/// due after no number of further reports, and the conversion has failed
/// with `Verify`.
pub proof fn lemma_failed_verification_blocks_write(
    conversion: ConversionView,
    outcomes: Seq<bool>,
)
    requires
        conversion.stage == Stage::Unresolved,
        conversion.verify,
        outcomes.len() >= 2,
        outcomes[0],
        !outcomes[1],
    ensures
        conversion.run(outcomes).result() == Some(Err::<(), ConvertError>(ConvertError::Verify)),
        forall|k: int|
            0 <= k <= outcomes.len() ==> (#[trigger] conversion.run(outcomes.take(k))).step()
                != Step::Write,
{
    lemma_result_of_run(conversion, outcomes);
    assert(first_failure_at(outcomes, 1));
    assert forall|k: int| 0 <= k <= outcomes.len() implies (#[trigger] conversion.run(
        outcomes.take(k),
    )).step() != Step::Write by {
        lemma_write_is_due(conversion, outcomes.take(k));
        if k == 3 {
            assert(outcomes.take(k)[1] == outcomes[1]);
        }
    }
}

/// Without verification, the module is not looked at: `Verify` is due
/// after no number of reports, `Write` is due as soon as decoding and
/// encoding have succeeded, and the conversion succeeds when the write does.
pub proof fn lemma_skipped_verification_allows_write(
    conversion: ConversionView,
    outcomes: Seq<bool>,
)
    requires
        conversion.stage == Stage::Unresolved,
        !conversion.verify,
    ensures
        conversion.run(outcomes).step() != Step::Verify,
        conversion.run(seq![true, true]).step() == Step::Write,
        conversion.run(seq![true, true, true]).result() == Some(Ok::<(), ConvertError>(())),
{
    lemma_stage_tells_outcomes(conversion, outcomes);
    lemma_write_is_due(conversion, seq![true, true]);
    lemma_result_of_run(conversion, seq![true, true, true]);
    assert(seq![true, true, true].take(3) =~= seq![true, true, true]);
}

/// A conversion writes at most once: `Write` is due after one number of
/// reports at most.
pub proof fn lemma_single_write(conversion: ConversionView, outcomes: Seq<bool>, j: int, k: int)
    requires
        conversion.stage == Stage::Unresolved,
        0 <= j <= outcomes.len(),
        0 <= k <= outcomes.len(),
        conversion.run(outcomes.take(j)).step() == Step::Write,
        conversion.run(outcomes.take(k)).step() == Step::Write,
    ensures
        j == k,
{
    lemma_write_is_due(conversion, outcomes.take(j));
    lemma_write_is_due(conversion, outcomes.take(k));
}

/// A conversion always goes from one encoding to the other. At every
/// stage, a `Decode` that is due reads the encoding of the input, an
/// `Encode` that is due produces the opposite one, and the output path
/// has the extension of that opposite encoding. None of this depends on
/// whether verification was asked for.
pub proof fn lemma_conversion_inverts_format(
    source: InputSourceView,
    output_dir: Seq<char>,
    verify: bool,
    outcomes: Seq<bool>,
)
    requires
        source.wf(),
    ensures
        ({
            let after = ConversionView::start(source, output_dir, verify).run(outcomes);
            &&& after.step() matches Step::Decode(format) ==> format == source.format
            &&& after.step() matches Step::Encode(format) ==> format == source.format.opposite()
                && format != source.format
            &&& after.output_path == source.output_path(output_dir)
            &&& BytecodeFormat::resolve(after.output_path) == Ok::<BytecodeFormat, ConvertError>(
                source.format.opposite(),
            )
        }),
{
    lemma_run_keeps_inputs(ConversionView::start(source, output_dir, verify), outcomes);
    lemma_output_has_opposite_format(source, output_dir);
    lemma_opposite_swaps(source.format);
}

} // verus!
