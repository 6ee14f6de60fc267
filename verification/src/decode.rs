//! The legacy decoder: an annotated string becomes a sequence of styled runs.
//!
//! The scan walks the input character by character. An ordinary character is
//! accumulated into the current run's text; a marker consumes the following
//! character as a formatting code, closes the current run with the state as it
//! stood before the code, and applies the code to the state. At end of input
//! the final run is closed and emitted, even when its text is empty, so every
//! successful decode yields at least one run.

use vstd::prelude::*;

use crate::style::DecodeError;
use crate::style::FormatState;
use crate::style::MARKER;
use crate::style::RunView;
use crate::style::StateView;
use crate::style::StyledRun;
use crate::style::apply_code;
use crate::style::check_color_code;
use crate::style::check_style_code;
use crate::style::initial_state;
use crate::style::is_format_code;
use crate::style::run_of;

verus! {

/// The runs produced by scanning `s` with current state `st` and with `buf`
/// already accumulated for the run in progress, or the first error met.
pub open spec fn decode_from(s: Seq<char>, st: StateView, buf: Seq<char>) -> Result<
    Seq<RunView>,
    DecodeError,
>
    decreases s.len(),
{
    if s.len() == 0 {
        Ok(seq![run_of(buf, st)])
    } else if s[0] == MARKER {
        if s.len() == 1 {
            Err(DecodeError::TruncatedFormatCode)
        } else if is_format_code(s[1]) {
            match decode_from(s.skip(2), apply_code(st, s[1]), Seq::empty()) {
                Ok(rest) => Ok(seq![run_of(buf, st)] + rest),
                Err(e) => Err(e),
            }
        } else {
            Err(DecodeError::UnknownFormatCode(s[1]))
        }
    } else {
        decode_from(s.skip(1), st, buf.push(s[0]))
    }
}

/// The decoding of a whole legacy string, from the initial state.
pub open spec fn spec_decode(s: Seq<char>) -> Result<Seq<RunView>, DecodeError> {
    decode_from(s, initial_state(), Seq::empty())
}

/// Runs already emitted, joined with the outcome of the remaining scan.
spec fn combine(prefix: Seq<RunView>, rest: Result<Seq<RunView>, DecodeError>) -> Result<
    Seq<RunView>,
    DecodeError,
> {
    match rest {
        Ok(r) => Ok(prefix + r),
        Err(e) => Err(e),
    }
}

proof fn lemma_combine_snoc(
    prefix: Seq<RunView>,
    run: RunView,
    rest: Result<Seq<RunView>, DecodeError>,
)
    ensures
        combine(
            prefix,
            match rest {
                Ok(r) => Ok(seq![run] + r),
                Err(e) => Err(e),
            },
        ) == combine(prefix.push(run), rest),
{
    match rest {
        Ok(r) => {
            assert(prefix + (seq![run] + r) =~= prefix.push(run) + r);
        },
        Err(_) => {},
    }
}

/// Decodes a legacy string into its ordered sequence of styled runs.
///
/// Succeeds exactly when every marker is followed by an accepted code; on
/// success the runs are the ones the scan model prescribes, and on failure
/// the error identifies the first offense and no partial result is returned.
pub fn decode(text: &str) -> (r: Result<Vec<StyledRun>, DecodeError>)
    ensures
        r is Ok <==> spec_decode(text@) is Ok,
        r is Ok ==> r->Ok_0.deep_view() == spec_decode(text@)->Ok_0,
        r is Err ==> r->Err_0 == spec_decode(text@)->Err_0,
{
    let n = text.unicode_len();
    let mut runs: Vec<StyledRun> = Vec::new();
    let mut st = FormatState::initial();
    let mut start: usize = 0;
    let mut i: usize = 0;
    proof {
        assert(text@.skip(0) =~= text@);
        assert(text@.subrange(0, 0) =~= Seq::<char>::empty());
        assert(runs.deep_view() =~= Seq::<RunView>::empty());
        assert(combine(runs.deep_view(), spec_decode(text@)) == spec_decode(text@)) by {
            match spec_decode(text@) {
                Ok(r) => {
                    assert(Seq::<RunView>::empty() + r =~= r);
                },
                Err(_) => {},
            }
        }
    }
    while i < n
        invariant
            n == text@.len(),
            start <= i <= n,
            spec_decode(text@) == combine(
                runs.deep_view(),
                decode_from(
                    text@.skip(i as int),
                    st@,
                    text@.subrange(start as int, i as int),
                ),
            ),
        decreases n - i,
    {
        let ghost i0 = i as int;
        let ghost st0 = st@;
        let ghost buf0 = text@.subrange(start as int, i as int);
        let ghost dv0 = runs.deep_view();
        let c = text.get_char(i);
        proof {
            assert(text@.skip(i0)[0] == text@[i0]);
        }
        if c == MARKER {
            if i + 1 == n {
                proof {
                    assert(text@.skip(i0).len() == 1);
                }
                return Err(DecodeError::TruncatedFormatCode);
            }
            let code = text.get_char(i + 1);
            proof {
                assert(text@.skip(i0)[1] == text@[i0 + 1]);
            }
            if check_style_code(code) || code == 'r' || check_color_code(code) {
                let piece = text.substring_char(start, i);
                let run = st.snapshot(String::from_str(piece));
                runs.push(run);
                let next = st.apply(code);
                st = next;
                i = i + 2;
                start = i;
                proof {
                    assert(text@.skip(i0).skip(2) =~= text@.skip(i0 + 2));
                    assert(text@.subrange(i0 + 2, i0 + 2) =~= Seq::<char>::empty());
                    assert(runs.deep_view() =~= dv0.push(run_of(buf0, st0)));
                    lemma_combine_snoc(
                        dv0,
                        run_of(buf0, st0),
                        decode_from(text@.skip(i0 + 2), apply_code(st0, code), Seq::empty()),
                    );
                }
            } else {
                return Err(DecodeError::UnknownFormatCode(code));
            }
        } else {
            i = i + 1;
            proof {
                assert(text@.skip(i0).skip(1) =~= text@.skip(i0 + 1));
                assert(buf0.push(text@[i0]) =~= text@.subrange(start as int, i as int));
            }
        }
    }
    let ghost dv0 = runs.deep_view();
    let ghost buf0 = text@.subrange(start as int, i as int);
    let piece = text.substring_char(start, i);
    let run = st.snapshot(String::from_str(piece));
    proof {
        assert(text@.skip(i as int).len() == 0);
        assert(dv0 + seq![run_of(buf0, st@)] =~= dv0.push(run_of(buf0, st@)));
    }
    runs.push(run);
    proof {
        assert(runs.deep_view() =~= dv0.push(run_of(buf0, st@)));
    }
    Ok(runs)
}

} // verus!
