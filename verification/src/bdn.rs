//! The BDN XML document: one description block and one event per display
//! interval, with every text field escaped.

use crate::text::{decimal_digits, push_char, push_decimal, push_signed, signed_decimal};
use crate::timecode::{
    format_fps, frame_rate_text, time_to_tc, timecode_at, timecode_text, FrameRate,
};
use crate::timeline::DisplayInterval;
use vstd::prelude::*;
use vstd::string::StringExecFns;

verus! {

/// What the description block says of the whole timeline.
#[derive(Clone, Debug)]
pub struct BdnInfo {
    pub fps: FrameRate,
    pub video_format: String,
}

/// One event of the document: a graphic with its in and out timecodes, its
/// image file and its place on the canvas.
#[derive(Clone, Debug)]
pub struct SubtitleEvent {
    pub in_tc: String,
    pub out_tc: String,
    pub png_file: String,
    pub x: i32,
    pub y: i32,
    pub width: i32,
    pub height: i32,
}

/// What one character becomes when escaped: the five characters
/// `& < > " '` become entities, every other character stays.
pub open spec fn escaped_char(c: char) -> Seq<char> {
    if c == '&' {
        seq!['&', 'a', 'm', 'p', ';']
    } else if c == '<' {
        seq!['&', 'l', 't', ';']
    } else if c == '>' {
        seq!['&', 'g', 't', ';']
    } else if c == '"' {
        seq!['&', 'q', 'u', 'o', 't', ';']
    } else if c == '\'' {
        seq!['&', 'a', 'p', 'o', 's', ';']
    } else {
        seq![c]
    }
}

/// A text with each character escaped.
pub open spec fn escaped(s: Seq<char>) -> Seq<char>
    decreases s.len(),
{
    if s.len() == 0 {
        Seq::empty()
    } else {
        escaped(s.drop_last()) + escaped_char(s.last())
    }
}

/// Whether the character is one of the five that escaping replaces.
pub open spec fn is_special(c: char) -> bool {
    c == '&' || c == '<' || c == '>' || c == '"' || c == '\''
}

/// Whether a text holds one of the five characters that escaping replaces.
pub open spec fn has_special(s: Seq<char>) -> bool {
    exists|i: int| 0 <= i < s.len() && is_special(#[trigger] s[i])
}

/// The standard reading of an escaped text: from the left, each of the
/// five entities becomes its character again, and every other character
/// stands for itself.
pub open spec fn unescaped(s: Seq<char>) -> Seq<char>
    decreases s.len(),
{
    if s.len() == 0 {
        Seq::empty()
    } else if escaped_char('&').is_prefix_of(s) {
        seq!['&'] + unescaped(s.skip(5))
    } else if escaped_char('<').is_prefix_of(s) {
        seq!['<'] + unescaped(s.skip(4))
    } else if escaped_char('>').is_prefix_of(s) {
        seq!['>'] + unescaped(s.skip(4))
    } else if escaped_char('"').is_prefix_of(s) {
        seq!['"'] + unescaped(s.skip(6))
    } else if escaped_char('\'').is_prefix_of(s) {
        seq!['\''] + unescaped(s.skip(6))
    } else {
        seq![s[0]] + unescaped(s.skip(1))
    }
}

/// Escapes `& < > " '` for use in XML text and attribute values.
pub fn xml_escape(s: &str) -> (out: String)
    ensures
        out@ == escaped(s@),
{
    let mut out = String::new();
    for c in it: s.chars()
        invariant
            it.seq() == s@,
            out@ == escaped(it.seq().take(it.index() as int)),
    {
        let ghost before = it.seq().take(it.index() as int);
        let ghost after = it.seq().take(it.index() + 1);
        proof {
            assert(after.drop_last() == before);
            assert(after.last() == c);
        }
        if c == '&' {
            proof {
                reveal_strlit("&amp;");
            }
            out.append("&amp;");
            assert(out@ == escaped(before) + escaped_char(c));
        } else if c == '<' {
            proof {
                reveal_strlit("&lt;");
            }
            out.append("&lt;");
            assert(out@ == escaped(before) + escaped_char(c));
        } else if c == '>' {
            proof {
                reveal_strlit("&gt;");
            }
            out.append("&gt;");
            assert(out@ == escaped(before) + escaped_char(c));
        } else if c == '"' {
            proof {
                reveal_strlit("&quot;");
            }
            out.append("&quot;");
            assert(out@ == escaped(before) + escaped_char(c));
        } else if c == '\'' {
            proof {
                reveal_strlit("&apos;");
            }
            out.append("&apos;");
            assert(out@ == escaped(before) + escaped_char(c));
        } else {
            push_char(&mut out, c);
            assert(out@ == escaped(before) + escaped_char(c));
        }
    }
    assert(s@.take(s@.len() as int) == s@);
    out
}

/// Escaping a text piece by piece is escaping the whole.
pub proof fn lemma_escaped_concat(a: Seq<char>, b: Seq<char>)
    ensures
        escaped(a + b) == escaped(a) + escaped(b),
    decreases b.len(),
{
    if b.len() == 0 {
        assert(a + b == a);
    } else {
        assert((a + b).drop_last() == a + b.drop_last());
        assert((a + b).last() == b.last());
        lemma_escaped_concat(a, b.drop_last());
    }
}

/// Escaping and then reading the five entities back gives the text that
/// was escaped.
pub proof fn lemma_escape_round_trip(s: Seq<char>)
    ensures
        unescaped(escaped(s)) == s,
    decreases s.len(),
{
    if s.len() == 0 {
    } else {
        let c = s[0];
        let rest = s.skip(1);
        assert(s == seq![c] + rest);
        lemma_escaped_concat(seq![c], rest);
        assert(seq![c].drop_last() == Seq::<char>::empty());
        assert(escaped(seq![c]) == escaped_char(c)) by {
            assert(escaped(seq![c].drop_last()) == Seq::<char>::empty());
            assert(seq![c].last() == c);
        }
        let head = escaped_char(c);
        let tail = escaped(rest);
        let whole = escaped(s);
        assert(whole == head + tail);
        lemma_escape_round_trip(rest);
        assert(whole.skip(head.len() as int) == tail);
        assert(head.is_prefix_of(whole)) by {
            assert(whole.subrange(0, head.len() as int) == head);
        }
        if !is_special(c) {
            assert(whole[0] == c);
        }
        assert(unescaped(whole) == seq![c] + unescaped(tail));
    }
}

/// A text without any of the five characters is left as it is.
pub proof fn lemma_escape_plain(s: Seq<char>)
    requires
        !has_special(s),
    ensures
        escaped(s) == s,
    decreases s.len(),
{
    if s.len() > 0 {
        assert forall|i: int| 0 <= i < s.drop_last().len() implies !is_special(
            #[trigger] s.drop_last()[i],
        ) by {
            assert(s.drop_last()[i] == s[i]);
        }
        lemma_escape_plain(s.drop_last());
        assert(!is_special(s[s.len() - 1]));
        assert(s == s.drop_last() + seq![s.last()]);
    }
}

/// Escaping never shortens a text, and a text with one of the five
/// characters gets longer and holds an ampersand afterwards.
pub proof fn lemma_escape_grows(s: Seq<char>)
    ensures
        escaped(s).len() >= s.len(),
        has_special(s) ==> escaped(s).len() > s.len(),
        has_special(s) ==> has_special(escaped(s)),
    decreases s.len(),
{
    if s.len() > 0 {
        let init = s.drop_last();
        let c = s.last();
        lemma_escape_grows(init);
        let head = escaped(init);
        let tail = escaped_char(c);
        assert(escaped(s) == head + tail);
        if has_special(s) {
            let i = choose|i: int| 0 <= i < s.len() && is_special(#[trigger] s[i]);
            if i < s.len() - 1 {
                assert(init[i] == s[i]);
                assert(has_special(init));
                let j = choose|j: int| 0 <= j < head.len() && is_special(#[trigger] head[j]);
                assert((head + tail)[j] == head[j]);
            } else {
                assert(is_special(c));
                assert(tail[0] == '&');
                assert((head + tail)[head.len() as int] == tail[0]);
            }
        }
    }
}

/// Escaping twice differs from escaping once exactly on the texts that
/// hold one of the five characters: the ampersands that the first pass put
/// in are escaped again by the second.
pub proof fn lemma_escape_twice(s: Seq<char>)
    ensures
        escaped(escaped(s)) == escaped(s) <==> !has_special(s),
{
    lemma_escape_grows(s);
    if has_special(s) {
        lemma_escape_grows(escaped(s));
    } else {
        lemma_escape_plain(s);
    }
}

impl SubtitleEvent {
    /// The event of a finalized interval at the given frame rate.
    pub fn from_interval(interval: &DisplayInterval, fps: &FrameRate) -> (event: SubtitleEvent)
        ensures
            event.in_tc@ == timecode_text(timecode_at(interval.start as int, *fps)),
            event.out_tc@ == timecode_text(timecode_at(interval.end as int, *fps)),
            event.png_file@ == interval.image@,
            event.x == interval.x,
            event.y == interval.y,
            event.width == interval.width,
            event.height == interval.height,
    {
        SubtitleEvent {
            in_tc: time_to_tc(interval.start, fps),
            out_tc: time_to_tc(interval.end, fps),
            png_file: interval.image.clone(),
            x: interval.x,
            y: interval.y,
            width: interval.width,
            height: interval.height,
        }
    }
}

/// The timecode that the summary shows where there is no event.
pub open spec fn zero_timecode() -> Seq<char> {
    "00:00:00:00"@
}

/// `text` followed by the lines that come before the events: the XML
/// declaration, the opening of the document and the description block.
pub open spec fn with_head(text: Seq<char>, info: BdnInfo, events: Seq<SubtitleEvent>) -> Seq<char> {
    let first = if events.len() > 0 {
        events.first().in_tc@
    } else {
        zero_timecode()
    };
    let last = if events.len() > 0 {
        events.last().out_tc@
    } else {
        zero_timecode()
    };
    text + "<?xml version=\"1.0\" encoding=\"UTF-8\"?>\n"@
        + "<BDN Version=\"0.93\" xmlns:xsi=\"http://www.w3.org/2001/XMLSchema-instance\" xsi:noNamespaceSchemaLocation=\"BD-03-006-0093b BDN File Format.xsd\">\n"@
        + "  <Description>\n"@ + "    <Name Title=\"BDN Subtitle\" Content=\"\"/>\n"@
        + "    <Language Code=\"und\"/>\n"@ + "    <Format VideoFormat=\""@ + escaped(
        info.video_format@,
    ) + "\" FrameRate=\""@ + escaped(frame_rate_text(info.fps)) + "\" DropFrame=\"False\"/>\n"@
        + "    <Events Type=\"Graphic\" FirstEventInTC=\""@ + escaped(first)
        + "\" LastEventOutTC=\""@ + escaped(last) + "\" NumberofEvents=\""@ + decimal_digits(
        events.len(),
    ) + "\"/>\n"@ + "  </Description>\n"@ + "  <Events>\n"@
}

/// `text` followed by the element of one event.
pub open spec fn with_event(text: Seq<char>, event: SubtitleEvent) -> Seq<char> {
    text + "    <Event InTC=\""@ + escaped(event.in_tc@) + "\" OutTC=\""@ + escaped(event.out_tc@)
        + "\" Forced=\"False\">\n"@ + "      <Graphic Width=\""@ + signed_decimal(
        event.width as int,
    ) + "\" Height=\""@ + signed_decimal(event.height as int) + "\" X=\""@ + signed_decimal(
        event.x as int,
    ) + "\" Y=\""@ + signed_decimal(event.y as int) + "\">"@ + escaped(event.png_file@)
        + "</Graphic>\n"@ + "    </Event>\n"@
}

/// `text` followed by the elements of the first `n` events, in order.
pub open spec fn with_events(text: Seq<char>, events: Seq<SubtitleEvent>, n: nat) -> Seq<char>
    decreases n,
{
    if n == 0 {
        text
    } else {
        with_event(with_events(text, events, (n - 1) as nat), events[n - 1])
    }
}

/// The whole document: the head, one element per event, and the closing
/// lines.
pub open spec fn document_text(info: BdnInfo, events: Seq<SubtitleEvent>) -> Seq<char> {
    with_events(with_head(Seq::empty(), info, events), events, events.len()) + "  </Events>\n"@
        + "</BDN>\n"@
}

/// Collects the events of a timeline and writes them as one BDN document.
pub struct BdnXmlGenerator {
    info: BdnInfo,
    events: Vec<SubtitleEvent>,
}

impl BdnXmlGenerator {
    /// What the description block will say.
    pub closed spec fn info(&self) -> BdnInfo {
        self.info
    }

    /// The events added so far, in order.
    pub closed spec fn events(&self) -> Seq<SubtitleEvent> {
        self.events@
    }

    /// A generator without events.
    pub fn new(info: BdnInfo) -> (generator: BdnXmlGenerator)
        ensures
            generator.info() == info,
            generator.events().len() == 0,
    {
        BdnXmlGenerator { info, events: Vec::new() }
    }

    /// Adds a copy of `event` after the events added so far.
    pub fn add_event(&mut self, event: &SubtitleEvent)
        ensures
            final(self).info() == old(self).info(),
            final(self).events() == old(self).events().push(*event),
    {
        self.events.push(
            SubtitleEvent {
                in_tc: event.in_tc.clone(),
                out_tc: event.out_tc.clone(),
                png_file: event.png_file.clone(),
                x: event.x,
                y: event.y,
                width: event.width,
                height: event.height,
            },
        );
    }

    /// The number of events added so far.
    pub fn event_count(&self) -> (count: usize)
        ensures
            count == self.events().len(),
    {
        self.events.len()
    }

    fn push_head(&self, out: &mut String)
        ensures
            final(out)@ == with_head(old(out)@, self.info, self.events@),
    {
        let count = self.events.len();
        out.append("<?xml version=\"1.0\" encoding=\"UTF-8\"?>\n");
        out.append(
            "<BDN Version=\"0.93\" xmlns:xsi=\"http://www.w3.org/2001/XMLSchema-instance\" xsi:noNamespaceSchemaLocation=\"BD-03-006-0093b BDN File Format.xsd\">\n",
        );
        out.append("  <Description>\n");
        out.append("    <Name Title=\"BDN Subtitle\" Content=\"\"/>\n");
        out.append("    <Language Code=\"und\"/>\n");
        out.append("    <Format VideoFormat=\"");
        out.append(xml_escape(self.info.video_format.as_str()).as_str());
        out.append("\" FrameRate=\"");
        out.append(xml_escape(format_fps(&self.info.fps).as_str()).as_str());
        out.append("\" DropFrame=\"False\"/>\n");
        out.append("    <Events Type=\"Graphic\" FirstEventInTC=\"");
        if count > 0 {
            out.append(xml_escape(self.events[0].in_tc.as_str()).as_str());
        } else {
            out.append(xml_escape("00:00:00:00").as_str());
        }
        out.append("\" LastEventOutTC=\"");
        if count > 0 {
            out.append(xml_escape(self.events[count - 1].out_tc.as_str()).as_str());
        } else {
            out.append(xml_escape("00:00:00:00").as_str());
        }
        out.append("\" NumberofEvents=\"");
        push_decimal(out, count as u128);
        out.append("\"/>\n");
        out.append("  </Description>\n");
        out.append("  <Events>\n");
    }

    /// The whole document as text.
    pub fn to_xml(&self) -> (out: String)
        ensures
            out@ == document_text(self.info(), self.events()),
    {
        let mut out = String::new();
        self.push_head(&mut out);
        let ghost head = out@;
        let mut k: usize = 0;
        while k < self.events.len()
            invariant
                k <= self.events@.len(),
                out@ == with_events(head, self.events@, k as nat),
            decreases self.events@.len() - k,
        {
            push_event(&mut out, &self.events[k]);
            k += 1;
        }
        out.append("  </Events>\n");
        out.append("</BDN>\n");
        out
    }
}

/// Appends the element of one event.
fn push_event(out: &mut String, event: &SubtitleEvent)
    ensures
        final(out)@ == with_event(old(out)@, *event),
{
    out.append("    <Event InTC=\"");
    out.append(xml_escape(event.in_tc.as_str()).as_str());
    out.append("\" OutTC=\"");
    out.append(xml_escape(event.out_tc.as_str()).as_str());
    out.append("\" Forced=\"False\">\n");
    out.append("      <Graphic Width=\"");
    push_signed(out, event.width as i64);
    out.append("\" Height=\"");
    push_signed(out, event.height as i64);
    out.append("\" X=\"");
    push_signed(out, event.x as i64);
    out.append("\" Y=\"");
    push_signed(out, event.y as i64);
    out.append("\">");
    out.append(xml_escape(event.png_file.as_str()).as_str());
    out.append("</Graphic>\n");
    out.append("    </Event>\n");
}

} // verus!
