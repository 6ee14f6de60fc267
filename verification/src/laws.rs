//! Laws of the decoder and renderer, stated and proved over their models.

use vstd::prelude::*;

use crate::decode::decode_from;
use crate::decode::spec_decode;
use crate::render::hex_of_color;
use crate::render::plain_concat;
use crate::style::DecodeError;
use crate::style::MARKER;
use crate::style::RunView;
use crate::style::StateView;
use crate::style::apply_code;
use crate::style::color_name;
use crate::style::initial_state;
use crate::style::is_color_code;
use crate::style::is_format_code;
use crate::style::is_style_code;
use crate::style::run_of;

verus! {

/// The input with every marker-and-code pair removed: what remains is the
/// text that the decoded runs carry between formatting boundaries.
pub open spec fn strip_codes(s: Seq<char>) -> Seq<char>
    decreases s.len(),
{
    if s.len() == 0 {
        Seq::empty()
    } else if s[0] == MARKER {
        if s.len() == 1 {
            Seq::empty()
        } else {
            strip_codes(s.skip(2))
        }
    } else {
        seq![s[0]] + strip_codes(s.skip(1))
    }
}

/// A legacy string is well formed when every marker is followed by a code
/// the decoder accepts: a style letter, the reset code, or a color code.
pub open spec fn well_formed(s: Seq<char>) -> bool
    decreases s.len(),
{
    if s.len() == 0 {
        true
    } else if s[0] == MARKER {
        s.len() >= 2 && is_format_code(s[1]) && well_formed(s.skip(2))
    } else {
        well_formed(s.skip(1))
    }
}

proof fn lemma_ok_iff_well_formed_general(s: Seq<char>, st: StateView, buf: Seq<char>)
    ensures
        decode_from(s, st, buf) is Ok <==> well_formed(s),
    decreases s.len(),
{
    if s.len() == 0 {
    } else if s[0] == MARKER {
        if s.len() >= 2 && is_format_code(s[1]) {
            lemma_ok_iff_well_formed_general(s.skip(2), apply_code(st, s[1]), Seq::empty());
        }
    } else {
        lemma_ok_iff_well_formed_general(s.skip(1), st, buf.push(s[0]));
    }
}

/// Law: decoding succeeds exactly on the well-formed strings; on every other
/// string it fails with a structured error and no partial result.
pub proof fn lemma_decode_ok_iff_well_formed(s: Seq<char>)
    ensures
        spec_decode(s) is Ok <==> well_formed(s),
{
    lemma_ok_iff_well_formed_general(s, initial_state(), Seq::empty());
}

proof fn lemma_decode_no_marker_general(s: Seq<char>, st: StateView, buf: Seq<char>)
    requires
        forall|i: int| 0 <= i < s.len() ==> s[i] != MARKER,
    ensures
        decode_from(s, st, buf) == Ok::<Seq<RunView>, DecodeError>(seq![run_of(buf + s, st)]),
    decreases s.len(),
{
    if s.len() == 0 {
        assert(buf + s =~= buf);
    } else {
        assert(s[0] != MARKER);
        assert(forall|i: int| 0 <= i < s.skip(1).len() ==> s.skip(1)[i] == s[i + 1]);
        lemma_decode_no_marker_general(s.skip(1), st, buf.push(s[0]));
        assert(buf.push(s[0]) + s.skip(1) =~= buf + s);
    }
}

/// Law: a legacy string with no marker character decodes to exactly one run
/// whose text equals the whole input, with color `white` and no styles set.
pub proof fn lemma_no_marker_single_run(s: Seq<char>)
    requires
        forall|i: int| 0 <= i < s.len() ==> s[i] != MARKER,
    ensures
        spec_decode(s) == Ok::<Seq<RunView>, DecodeError>(seq![run_of(s, initial_state())]),
{
    lemma_decode_no_marker_general(s, initial_state(), Seq::empty());
    assert(Seq::<char>::empty() + s =~= s);
}

proof fn lemma_concat_strip_general(s: Seq<char>, st: StateView, buf: Seq<char>)
    requires
        decode_from(s, st, buf) is Ok,
    ensures
        plain_concat(decode_from(s, st, buf)->Ok_0) == buf + strip_codes(s),
    decreases s.len(),
{
    if s.len() == 0 {
        let runs = seq![run_of(buf, st)];
        assert(runs.skip(1) =~= Seq::<RunView>::empty());
        assert(plain_concat(runs) == buf + plain_concat(runs.skip(1)));
        assert(plain_concat(runs.skip(1)) == Seq::<char>::empty());
        assert(buf + Seq::<char>::empty() =~= buf);
        assert(buf + strip_codes(s) =~= buf);
    } else if s[0] == MARKER {
        let rest = decode_from(s.skip(2), apply_code(st, s[1]), Seq::empty());
        assert(rest is Ok);
        lemma_concat_strip_general(s.skip(2), apply_code(st, s[1]), Seq::empty());
        assert(Seq::<char>::empty() + strip_codes(s.skip(2)) =~= strip_codes(s.skip(2)));
        let runs = seq![run_of(buf, st)] + rest->Ok_0;
        assert(runs[0] == run_of(buf, st));
        assert(runs.skip(1) =~= rest->Ok_0);
        assert(plain_concat(runs) == buf + plain_concat(runs.skip(1)));
        assert(strip_codes(s) == strip_codes(s.skip(2)));
    } else {
        lemma_concat_strip_general(s.skip(1), st, buf.push(s[0]));
        assert(strip_codes(s) == seq![s[0]] + strip_codes(s.skip(1)));
        assert(buf.push(s[0]) =~= buf + seq![s[0]]);
        assert((buf + seq![s[0]]) + strip_codes(s.skip(1)) =~= buf + (seq![s[0]] + strip_codes(
            s.skip(1),
        )));
    }
}

/// Law: for a valid legacy string, the concatenation of `text` across the
/// decoded runs, in order, equals the input with every marker-and-code pair
/// removed. Since the plain rendering of a run sequence is exactly that
/// concatenation, the plain rendering of the decoded runs is the
/// marker-stripped form of the input.
pub proof fn lemma_plain_round_trip(s: Seq<char>)
    requires
        spec_decode(s) is Ok,
    ensures
        plain_concat(spec_decode(s)->Ok_0) == strip_codes(s),
{
    lemma_concat_strip_general(s, initial_state(), Seq::empty());
    assert(Seq::<char>::empty() + strip_codes(s) =~= strip_codes(s));
}

/// Law: the reset code clears every style flag and restores the color to
/// `white`; the state after a reset is exactly the initial state, whatever
/// came before.
pub proof fn lemma_reset_restores_default(st: StateView)
    ensures
        apply_code(st, 'r') == initial_state(),
{
}

/// Law: after a reset, every later run carries the initial state until a
/// further code changes it: whatever state the scan was in, a reset followed
/// by marker-free text yields one run with that text and the initial state.
pub proof fn lemma_reset_tail(s: Seq<char>, st: StateView, buf: Seq<char>)
    requires
        forall|i: int| 0 <= i < s.len() ==> s[i] != MARKER,
    ensures
        decode_from(seq![MARKER, 'r'] + s, st, buf) == Ok::<Seq<RunView>, DecodeError>(
            seq![run_of(buf, st), run_of(s, initial_state())],
        ),
{
    let t = seq![MARKER, 'r'] + s;
    assert(t[0] == MARKER);
    assert(t[1] == 'r');
    assert(t.len() >= 2);
    assert(t.skip(2) =~= s);
    lemma_decode_no_marker_general(s, initial_state(), Seq::empty());
    assert(Seq::<char>::empty() + s =~= s);
    assert(seq![run_of(buf, st)] + seq![run_of(s, initial_state())] =~= seq![
        run_of(buf, st),
        run_of(s, initial_state()),
    ]);
}

/// The style flag of `st` that the style code `c` governs.
pub open spec fn style_flag(st: StateView, c: char) -> Option<bool> {
    if c == 'l' {
        st.bold
    } else if c == 'k' {
        st.obfuscated
    } else if c == 'm' {
        st.strikethrough
    } else if c == 'n' {
        st.underlined
    } else {
        st.italic
    }
}

/// Law: a style code immediately followed by end of input still closes the
/// current run and emits one more run that carries the style just set, even
/// though its text is empty.
pub proof fn lemma_style_code_at_end(st: StateView, buf: Seq<char>, c: char)
    requires
        is_style_code(c),
    ensures
        decode_from(seq![MARKER, c], st, buf) == Ok::<Seq<RunView>, DecodeError>(
            seq![run_of(buf, st), run_of(Seq::empty(), apply_code(st, c))],
        ),
        style_flag(apply_code(st, c), c) == Some(true),
{
    let t = seq![MARKER, c];
    assert(t[0] == MARKER);
    assert(t[1] == c);
    assert(t.skip(2) =~= Seq::<char>::empty());
    let done = apply_code(st, c);
    assert(decode_from(Seq::empty(), done, Seq::empty()) == Ok::<Seq<RunView>, DecodeError>(
        seq![run_of(Seq::empty(), done)],
    ));
    assert(seq![run_of(buf, st)] + seq![run_of(Seq::empty(), done)] =~= seq![
        run_of(buf, st),
        run_of(Seq::empty(), done),
    ]);
}

/// A formatting state the decoder can produce: the color is always set and is
/// one of the sixteen fixed names, and no style flag is an explicit `false`.
pub open spec fn decoder_state_valid(st: StateView) -> bool {
    &&& st.color is Some
    &&& hex_of_color(st.color->0) is Some
    &&& st.bold != Some(false)
    &&& st.italic != Some(false)
    &&& st.underlined != Some(false)
    &&& st.strikethrough != Some(false)
    &&& st.obfuscated != Some(false)
}

/// A run the decoder can emit: the same conditions, snapshotted.
pub open spec fn decoder_run_valid(r: RunView) -> bool {
    &&& r.color is Some
    &&& hex_of_color(r.color->0) is Some
    &&& r.bold != Some(false)
    &&& r.italic != Some(false)
    &&& r.underlined != Some(false)
    &&& r.strikethrough != Some(false)
    &&& r.obfuscated != Some(false)
}

proof fn lemma_fixed_names_have_hex(c: char)
    requires
        is_color_code(c),
    ensures
        hex_of_color(color_name(c)) is Some,
{
    reveal_strlit("black");
    reveal_strlit("dark_blue");
    reveal_strlit("dark_green");
    reveal_strlit("dark_aqua");
    reveal_strlit("dark_red");
    reveal_strlit("dark_purple");
    reveal_strlit("gold");
    reveal_strlit("gray");
    reveal_strlit("dark_gray");
    reveal_strlit("blue");
    reveal_strlit("green");
    reveal_strlit("aqua");
    reveal_strlit("red");
    reveal_strlit("light_purple");
    reveal_strlit("yellow");
    reveal_strlit("white");
}

proof fn lemma_initial_state_valid()
    ensures
        decoder_state_valid(initial_state()),
{
    lemma_fixed_names_have_hex('f');
}

proof fn lemma_apply_preserves_valid(st: StateView, c: char)
    requires
        decoder_state_valid(st),
        is_format_code(c),
    ensures
        decoder_state_valid(apply_code(st, c)),
{
    if is_style_code(c) {
    } else if c == 'r' {
        lemma_initial_state_valid();
    } else {
        lemma_fixed_names_have_hex(c);
    }
}

proof fn lemma_runs_valid_general(s: Seq<char>, st: StateView, buf: Seq<char>)
    requires
        decoder_state_valid(st),
        decode_from(s, st, buf) is Ok,
    ensures
        forall|i: int|
            0 <= i < decode_from(s, st, buf)->Ok_0.len() ==> decoder_run_valid(
                #[trigger] decode_from(s, st, buf)->Ok_0[i],
            ),
    decreases s.len(),
{
    if s.len() == 0 {
        assert(decode_from(s, st, buf)->Ok_0[0] == run_of(buf, st));
    } else if s[0] == MARKER {
        let rest = decode_from(s.skip(2), apply_code(st, s[1]), Seq::empty());
        lemma_apply_preserves_valid(st, s[1]);
        lemma_runs_valid_general(s.skip(2), apply_code(st, s[1]), Seq::empty());
        let runs = decode_from(s, st, buf)->Ok_0;
        assert(runs == seq![run_of(buf, st)] + rest->Ok_0);
        assert(runs[0] == run_of(buf, st));
        assert forall|i: int| 0 <= i < runs.len() implies decoder_run_valid(#[trigger] runs[i]) by {
            if i > 0 {
                assert(runs[i] == rest->Ok_0[i - 1]);
            }
        }
    } else {
        lemma_runs_valid_general(s.skip(1), st, buf.push(s[0]));
    }
}

/// Law: every run of a successful decode carries a color that is one of the
/// sixteen fixed names, and never an explicit `false` style flag; styles are
/// either set to `true` or absent.
pub proof fn lemma_decoder_output_well_styled(s: Seq<char>)
    requires
        spec_decode(s) is Ok,
    ensures
        forall|i: int|
            0 <= i < spec_decode(s)->Ok_0.len() ==> decoder_run_valid(
                #[trigger] spec_decode(s)->Ok_0[i],
            ),
{
    lemma_initial_state_valid();
    lemma_runs_valid_general(s, initial_state(), Seq::empty());
}

} // verus!
