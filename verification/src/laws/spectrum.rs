//! What holds of the spectrum, from the analyser to the device.
use crate::cava_bridge::{
    bar_bytes, cava_step, frame_step, message_of, message_size, more_skipped, CavaEvent, CavaStep,
    FrameStep, SpectrumView,
};
use crate::cava_manager::{
    ascii_frame, bars_of, binary_read, command_words, config_lines, end_step, first_values, format_of,
    left_over, names_loopback, numbers_among, pids, start_step, widened, with_line_ends, CavaFormat,
    EndEvent, EndStep, ReadView, StartEvent, StartStep,
};
use crate::config_manager::{analyser_format, CavaConfig};
use crate::laws::text::{law_found_only_there, law_lines, law_pieces, lemma_number_chars};
use crate::pieces::{lines, pieces, trim};
use crate::text::{dec, dec_int, is_digit, law_dec_round_trip, parse_int, views};
use vstd::prelude::*;
use vstd::string::*;
use vstd::utf8::encode_utf8;

verus! {

// ---------------------------------------------------------------------------
// The settings of the analyser
// ---------------------------------------------------------------------------

/// The analyser writes in the format that is asked for: `binary`, or else text. Where none is asked
/// for, it writes text exactly if the settings say `json`.
pub proof fn law_format(asked: Seq<char>, data_format: Seq<char>)
    ensures
        asked.len() > 0 ==> (format_of(Some(asked), data_format) == CavaFormat::Binary <==> asked
            == "binary"@),
        format_of(None, data_format) == CavaFormat::Ascii <==> data_format == "json"@,
        asked.len() == 0 ==> format_of(Some(asked), data_format) == format_of(None, data_format),
        analyser_format(asked) == "binary"@ <==> asked == "binary"@,
        analyser_format(asked) == "ascii"@ <==> asked != "binary"@,
{
    reveal_strlit("ascii");
    reveal_strlit("binary");
    assert("ascii"@.len() != "binary"@.len());
}

/// There are as many bars as are asked for; where none are asked for, or 0, as many as the settings
/// say.
pub proof fn law_bars(asked: u32, default: u32)
    ensures
        asked > 0 ==> bars_of(Some(asked), default) == asked,
        bars_of(Some(0), default) == default,
        bars_of(None, default) == default,
{
}

/// The settings file of the analyser holds the settings, each behind its own label, the number of bars
/// and the format that the device needs. The range of the values belongs to text, and the size of a
/// value to the binary format.
pub proof fn law_settings(cava: CavaConfig, bars: usize, format: CavaFormat)
    ensures
        ({
            let l = config_lines(cava, bars, format);
            &&& l.len() == 23 + cava.eq@.len()
            &&& l[0] == "[general]"@ && l[6] == "[input]"@ && l[10] == "[output]"@ && l[17]
                == "[smoothing]"@ && l[22] == "[eq]"@
            &&& l[1] == "framerate = "@ + dec(cava.framerate as nat)
            &&& l[2] == "bars = "@ + dec(bars as nat)
            &&& l[3] == "autosens = "@ + dec(cava.defaults.autosens as nat)
            &&& l[4] == "sensitivity = "@ + dec(cava.defaults.sensitivity as nat)
            &&& l[7] == "method = "@ + cava.input.method@
            &&& l[8] == "source = "@ + cava.input.source@
            &&& l[11] == "method = "@ + cava.output.method@
            &&& l[12] == "raw_target = "@ + cava.output.raw_target@
            &&& l[13] == "channels = "@ + cava.input.channels@
            &&& format == CavaFormat::Binary ==> l[14] == "data_format = "@ + "binary"@ && l[15]
                == "bit_format = "@ + "8bit"@
            &&& format == CavaFormat::Ascii ==> l[14] == "data_format = "@ + "ascii"@ && l[15]
                == "ascii_max_range = "@ + dec(cava.defaults.ascii_range as nat)
            &&& l[18] == "noise_reduction = "@ + dec(cava.smoothing.noise_reduction as nat)
            &&& l[19] == "monstercat = "@ + dec(cava.smoothing.monstercat as nat)
            &&& l[20] == "waves = "@ + dec(cava.smoothing.waves as nat)
            &&& forall|i: int|
                0 <= i < cava.eq@.len() ==> #[trigger] l[23 + i] == dec((i + 1) as nat) + " = "@
                    + cava.eq@[i]@
        }),
{
}

proof fn lemma_line_ends_front(ls: Seq<Seq<char>>)
    requires
        ls.len() > 0,
    ensures
        with_line_ends(ls) == ls[0] + seq!['\n'] + with_line_ends(ls.drop_first()),
    decreases ls.len(),
{
    let t = ls.drop_last();
    if t.len() == 0 {
        assert(ls.drop_first() =~= Seq::<Seq<char>>::empty());
        assert(with_line_ends(t) =~= Seq::<char>::empty());
        assert(with_line_ends(ls) =~= ls[0] + seq!['\n'] + with_line_ends(ls.drop_first()));
    } else {
        lemma_line_ends_front(t);
        assert(ls.drop_first().drop_last() =~= t.drop_first());
        assert(ls.drop_first().last() == ls.last());
        assert(with_line_ends(ls) =~= ls[0] + seq!['\n'] + with_line_ends(ls.drop_first()));
    }
}

/// The lines of a file are read back as they were written.
pub proof fn law_file_is_read_back(ls: Seq<Seq<char>>)
    requires
        forall|k: int, i: int|
            0 <= k < ls.len() && 0 <= i < ls[k].len() ==> (#[trigger] ls[k][i]) != '\n' && ls[k][i]
                != '\r',
    ensures
        lines(with_line_ends(ls)) == ls,
    decreases ls.len(),
{
    if ls.len() == 0 {
        law_lines(Seq::empty(), Seq::empty());
        assert(with_line_ends(ls) =~= Seq::<char>::empty());
        assert(lines(with_line_ends(ls)) =~= ls);
    } else {
        let rest = ls.drop_first();
        let l = ls[0];
        assert forall|k: int, i: int| 0 <= k < rest.len() && 0 <= i < rest[k].len() implies (
        #[trigger] rest[k][i]) != '\n' && rest[k][i] != '\r' by {
            assert(rest[k][i] == ls[k + 1][i]);
        }
        assert forall|i: int| 0 <= i < l.len() implies l[i] != '\n' by {
            assert(ls[0][i] != '\n');
        }
        if l.len() > 0 {
            assert(ls[0][l.len() - 1] != '\r');
        }
        law_file_is_read_back(rest);
        lemma_line_ends_front(ls);
        law_lines(l, with_line_ends(rest));
        assert(seq![l] + rest =~= ls);
    }
}

// ---------------------------------------------------------------------------
// Processes
// ---------------------------------------------------------------------------

/// The processes to end are those whose numbers stand on the lines, in their order, whatever white
/// space stands round them; a line that is no number above 0 does not count.
pub proof fn law_processes(list: Seq<Seq<char>>, line: Seq<char>)
    ensures
        pids(Seq::empty()).len() == 0,
        parse_int(trim(line)) matches Some(n) ==> {
            &&& 0 < n <= i32::MAX ==> pids(list.push(line)) == pids(list).push(n as i32)
            &&& n <= 0 ==> pids(list.push(line)) == pids(list)
        },
        parse_int(trim(line)) is None ==> pids(list.push(line)) == pids(list),
        forall|i: int| 0 <= i < pids(list).len() ==> #[trigger] pids(list)[i] > 0,
    decreases list.len(),
{
    assert(list.push(line).drop_last() =~= list);
    assert(list.push(line).last() == line);
    if list.len() > 0 {
        law_processes(list.drop_last(), line);
    }
}

/// A list of sound devices holds the loopback device exactly if its name stands there, anywhere.
pub proof fn law_loopback(s: Seq<char>)
    ensures
        names_loopback(s) <==> exists|a: Seq<char>, b: Seq<char>| s == #[trigger] (a + "Loopback"@ + b),
{
    law_found_only_there(s, "Loopback"@);
}

/// The analyser is started by its program, with its settings file.
pub proof fn law_command()
    ensures
        command_words() == seq!["/usr/bin/cava"@, "-p"@, "/tmp/cava_config"@],
{
}

/// The analyser is started in this order: its settings are written, the loopback device is there, the
/// process is made, and it runs once it has settled. It fails exactly if one of these does.
pub proof fn law_start(event: StartEvent)
    ensures
        start_step(event) == StartStep::AwaitLoopback <==> event == StartEvent::ConfigWritten(true),
        start_step(event) == StartStep::Spawn <==> event == StartEvent::Loopback(true),
        start_step(event) == StartStep::Settle(100) <==> event == StartEvent::Spawned(true),
        start_step(event) == StartStep::Started <==> event == StartEvent::Settled(true),
        start_step(event) == StartStep::Failed <==> event == StartEvent::ConfigWritten(false) || event
            == StartEvent::Loopback(false) || event == StartEvent::Spawned(false) || event
            == StartEvent::Settled(false),
{
}

/// An analyser that runs is told to stop, has a second to do so, and is killed exactly if it still
/// runs; its settings file is removed in the end, whether it ran or not.
pub proof fn law_end(running: bool, event: EndEvent)
    ensures
        end_step(running, event) == EndStep::Terminate(1000) <==> event == EndEvent::Begin && running,
        end_step(running, event) == EndStep::Kill <==> event == EndEvent::Waited(true),
        end_step(running, event) == EndStep::Reap <==> event == EndEvent::Waited(false),
        end_step(running, event) == EndStep::RemoveSettings <==> event == EndEvent::Ended || (event
            == EndEvent::Begin && !running),
{
}

// ---------------------------------------------------------------------------
// Frames
// ---------------------------------------------------------------------------

/// A frame as the analyser writes it as text: each value with a semicolon behind it.
pub open spec fn with_semicolons(v: Seq<i32>) -> Seq<char>
    decreases v.len(),
{
    if v.len() == 0 {
        Seq::empty()
    } else {
        dec_int(v[0] as int) + seq![';'] + with_semicolons(v.drop_first())
    }
}

proof fn lemma_numbers_front(part: Seq<char>, n: i32, rest: Seq<Seq<char>>)
    requires
        parse_int(part) == Some(n as int),
    ensures
        numbers_among(seq![part] + rest) == seq![n] + numbers_among(rest),
    decreases rest.len(),
{
    let all = seq![part] + rest;
    if rest.len() == 0 {
        assert(all.drop_last() =~= Seq::<Seq<char>>::empty());
        assert(all.last() == part);
        assert(numbers_among(all.drop_last()) =~= Seq::<i32>::empty());
        assert(numbers_among(all) =~= seq![n] + numbers_among(rest));
    } else {
        lemma_numbers_front(part, n, rest.drop_last());
        assert(all.drop_last() =~= seq![part] + rest.drop_last());
        assert(all.last() == rest.last());
        assert(numbers_among(all) =~= seq![n] + numbers_among(rest));
    }
}

proof fn lemma_numbers_of_frame(v: Seq<i32>)
    ensures
        numbers_among(pieces(with_semicolons(v), ';')) == v,
    decreases v.len(),
{
    let s = with_semicolons(v);
    if v.len() == 0 {
        let e = Seq::<char>::empty();
        assert(pieces(s, ';') =~= seq![e]);
        assert(seq![e].drop_last() =~= Seq::<Seq<char>>::empty());
        assert(parse_int(e) is None);
        reveal_with_fuel(numbers_among, 2);
        assert(numbers_among(pieces(s, ';')) =~= v);
    } else {
        let d = dec_int(v[0] as int);
        let rest = v.drop_first();
        lemma_numbers_of_frame(rest);
        law_dec_round_trip(v[0] as int);
        assert forall|i: int| 0 <= i < d.len() implies d[i] != ';' by {
            lemma_number_chars(v[0] as int, i);
        }
        law_pieces(d, ';', with_semicolons(rest));
        lemma_numbers_front(d, v[0], pieces(with_semicolons(rest), ';'));
        assert(seq![v[0]] + rest =~= v);
    }
}

/// A frame that the analyser writes as text is read back, value by value, exactly if it has a value for
/// each bar and no more than may be; any other gives nothing.
pub proof fn law_text_frame_is_read_back(v: Seq<i32>, max: nat, bars: nat)
    ensures
        v.len() <= max && v.len() == bars ==> ascii_frame(with_semicolons(v), max, bars)
            == ReadView::Frame(v),
        v.len() <= max && v.len() != bars ==> ascii_frame(with_semicolons(v), max, bars) is Nothing,
        v.len() > max && bars == max ==> ascii_frame(with_semicolons(v), max, bars)
            == ReadView::Frame(v.take(max as int)),
{
    lemma_numbers_of_frame(v);
}

/// What a line of numbers gives has a value for each bar.
pub proof fn law_one_value_for_each_bar(line: Seq<char>, max: nat, bars: nat, v: Seq<i32>)
    ensures
        ascii_frame(line, max, bars) matches ReadView::Frame(values) ==> values.len() == bars && bars
            <= max,
        !(ascii_frame(line, max, bars) is Exited),
        first_values(v, max).len() <= max && first_values(v, max).len() <= v.len(),
        first_values(v, max) == v.take(first_values(v, max).len() as int),
{
    assert(v.take(v.len() as int) =~= v);
}

/// The values of a binary frame are its bytes.
pub proof fn law_bytes_are_values(bytes: Seq<u8>)
    ensures
        widened(bytes).len() == bytes.len(),
        forall|i: int|
            0 <= i < bytes.len() ==> #[trigger] widened(bytes)[i] == bytes[i] as i32 && 0 <= widened(
                bytes,
            )[i] <= 255,
        bytes.len() <= 64 ==> bar_bytes(widened(bytes)) == bytes,
{
    if bytes.len() <= 64 {
        assert forall|i: int| 0 <= i < bytes.len() implies #[trigger] bar_bytes(widened(bytes))[i]
            == bytes[i] by {
            assert(widened(bytes)[i] == bytes[i] as i32);
        }
        assert(bar_bytes(widened(bytes)) =~= bytes);
    }
}

/// Bytes that make no whole frame give nothing, and all of them are kept. Of whole frames and what
/// follows them the last whole one is given, up to the values that may be, and exactly what follows it is
/// kept.
pub proof fn law_what_is_kept(older: Seq<u8>, frame: Seq<u8>, part: Seq<u8>, max: nat)
    requires
        frame.len() > 0,
        older.len() % frame.len() == 0,
        part.len() < frame.len(),
    ensures
        binary_read(part, frame.len(), max) is Nothing,
        left_over(part, frame.len()) == part,
        ({
            let all = older + frame + part;
            &&& left_over(all, frame.len()) == part
            &&& frame.len() <= max ==> binary_read(all, frame.len(), max) == ReadView::Frame(
                widened(frame),
            )
            &&& frame.len() > max ==> binary_read(all, frame.len(), max) == ReadView::Frame(
                widened(frame.take(max as int)),
            )
        }),
{
    let all = older + frame + part;
    let size = frame.len() as int;
    let before = older.len() as int;
    let rest = part.len() as int;
    assert((before + size + rest) % size == rest) by (nonlinear_arith)
        requires
            size > 0,
            before % size == 0,
            0 <= rest < size,
    ;
    assert(all.len() % frame.len() == part.len());
    assert(all.skip(before + size) =~= part);
    assert(all.subrange(before, before + size) =~= frame);
    assert(frame.take(size) =~= frame);
}

/// The bars of a frame are its first 64 values at most, in their order; a value that fits into a byte
/// is the byte.
pub proof fn law_bars_of_a_frame(values: Seq<i32>, i: int)
    requires
        0 <= i < bar_bytes(values).len(),
    ensures
        values.len() <= 64 ==> bar_bytes(values).len() == values.len(),
        values.len() > 64 ==> bar_bytes(values).len() == 64,
        0 <= values[i] <= 255 ==> bar_bytes(values)[i] == values[i],
        (values[i] - bar_bytes(values)[i]) % 256 == 0,
{
}

/// A device gets the bars themselves exactly if its format is `binary`, with the header that is given,
/// and a message of JSON otherwise. The size of a binary message is that of its bars and two bytes.
pub proof fn law_messages(format: Seq<char>, values: Seq<i32>, header: u8)
    ensures
        message_of(format, values, header) is Binary <==> format == "binary"@,
        message_of(format, values, header) is Json <==> format != "binary"@,
        message_of(format, values, header) matches SpectrumView::Binary { bars, header: h } ==> h
            == header && bars == bar_bytes(values),
        message_of(format, values, header) matches SpectrumView::Json(s) ==> s
            == crate::json::spectrum_text(values) && message_size(SpectrumView::Json(s))
            == encode_utf8(s).len(),
        format == "binary"@ && values.len() <= 64 ==> message_size(
            message_of(format, values, header),
        ) == values.len() + 2,
{
}

/// The frames that are left out double with each that could not be sent: 1, 2, 4 and 8, and not more.
pub proof fn law_left_out(count: u32)
    ensures
        more_skipped(0) == 1,
        1 <= count <= 4 ==> more_skipped(count) == 2 * count,
        count > 4 ==> more_skipped(count) == 8,
{
}

/// A frame is sent exactly if none are to be left out, and left out otherwise; without a frame the
/// bridge rests for five milliseconds, and it stops exactly if the analyser has ended.
pub proof fn law_frame_steps(read: ReadView, remaining: u32)
    ensures
        frame_step(read, remaining) == FrameStep::Send <==> read is Frame && remaining == 0,
        frame_step(read, remaining) == FrameStep::Skip <==> read is Frame && remaining > 0,
        frame_step(read, remaining) == FrameStep::Stop <==> read is Exited,
        frame_step(read, remaining) == FrameStep::Rest(5_000_000) <==> read is Nothing,
{
}

/// The bridge of the spectrum comes up in this order: the line is opened, the device is asked, the
/// analyser is started, whether the device gave its name or not, with two minutes for the loopback
/// device, and frames are sent once it runs.
pub proof fn law_spectrum_start(event: CavaEvent)
    ensures
        cava_step(event) == CavaStep::Identify <==> event == CavaEvent::Connected(true),
        cava_step(event) == CavaStep::Start(120) <==> event is Identified,
        cava_step(event) == CavaStep::Loop <==> event == CavaEvent::Started(true),
{
}

} // verus!
