//! The options of the program, their text form, and the paths of saved
//! pictures.

use vstd::prelude::*;
use vstd::string::{StrSliceExecFns, StringExecFns};
use crate::settings::{lowercase, same_text, ColorTypes, Framerates};

verus! {

/// The options of the program.
#[derive(Clone, Debug, PartialEq, Eq)]
pub struct Opt {
    pub filename: String,
    pub color_type: ColorTypes,
    pub framerate: Framerates,
    pub windowed: bool,
    pub left_handed: bool,
}

/// The options as plain values.
pub struct Options {
    pub filename: Seq<char>,
    pub color_type: ColorTypes,
    pub framerate: Framerates,
    pub windowed: bool,
    pub left_handed: bool,
}

impl View for Opt {
    type V = Options;

    open spec fn view(&self) -> Options {
        Options {
            filename: self.filename@,
            color_type: self.color_type,
            framerate: self.framerate,
            windowed: self.windowed,
            left_handed: self.left_handed,
        }
    }
}

/// The options that hold where nothing else was asked for.
pub open spec fn default_options() -> Options {
    Options {
        filename: "out.png"@,
        color_type: ColorTypes::Hue,
        framerate: Framerates::Two,
        windowed: false,
        left_handed: false,
    }
}

/// The place of the first `mark` in a text; the length of the text where it
/// has none.
pub open spec fn first_index(text: Seq<char>, mark: char) -> nat
    decreases text.len(),
{
    if text.len() == 0 || text[0] == mark {
        0
    } else {
        1 + first_index(text.drop_first(), mark)
    }
}

/// The text of a truth value.
pub open spec fn bool_text(value: bool) -> Seq<char> {
    if value {
        "true"@
    } else {
        "false"@
    }
}

/// The text form of options: one line `color:` with the name of the
/// colouring, then one line `left_hand:` with `true` or `false`.
pub open spec fn options_text(options: Options) -> Seq<char> {
    "color:"@ + options.color_type.name() + "\nleft_hand:"@ + bool_text(options.left_handed)
        + "\n"@
}

/// The options after one line was read. A line without a colon changes
/// nothing. Otherwise the key is what stands before the first colon and the
/// value what stands between the first colon and the second, or the end of
/// the line. The key `color` sets the colouring to the one that the value
/// names, or to `Hue` where it names none; the key `left_hand` sets the
/// handedness, which is left only for the value `true`; any other key
/// changes nothing.
pub open spec fn apply_line(options: Options, line: Seq<char>) -> Options {
    let colon = first_index(line, ':');
    if colon >= line.len() {
        options
    } else {
        let key = line.take(colon as int);
        let rest = line.skip(colon as int + 1);
        let value = rest.take(first_index(rest, ':') as int);
        if key == "color"@ {
            Options {
                color_type: match ColorTypes::named(lowercase(value)) {
                    Some(color) => color,
                    None => ColorTypes::Hue,
                },
                ..options
            }
        } else if key == "left_hand"@ {
            Options { left_handed: value == "true"@, ..options }
        } else {
            options
        }
    }
}

/// The options after every line of a text was read, from the first line to
/// the last. Lines end at a line feed; what stands behind the last line
/// feed is a line too.
pub open spec fn apply_lines(options: Options, text: Seq<char>) -> Options
    decreases text.len(),
{
    let end = first_index(text, '\n');
    let updated = apply_line(options, text.take(end as int));
    if end >= text.len() {
        updated
    } else {
        apply_lines(updated, text.skip(end as int + 1))
    }
}

/// The place of the first `mark` is the one place with no `mark` before it
/// that holds a `mark` or is the end of the text.
pub proof fn lemma_first_index(text: Seq<char>, mark: char, place: int)
    requires
        0 <= place <= text.len(),
        forall|k: int| 0 <= k < place ==> text[k] != mark,
        place == text.len() || text[place] == mark,
    ensures
        first_index(text, mark) == place,
    decreases text.len(),
{
    if place > 0 {
        let rest = text.drop_first();
        assert forall|k: int| 0 <= k < place - 1 implies rest[k] != mark by {
            assert(rest[k] == text[k + 1]);
        }
        lemma_first_index(rest, mark, place - 1);
    }
}

/// Whether a text holds no `mark`.
pub open spec fn lacks(text: Seq<char>, mark: char) -> bool {
    forall|k: int| 0 <= k < text.len() ==> text[k] != mark
}

/// The line `key:value`.
pub open spec fn key_value_line(key: Seq<char>, value: Seq<char>) -> Seq<char> {
    key + seq![':'] + value
}

/// A line `key:value` whose key and value hold no colon is read as that key
/// and that value: the key `color` sets the colouring to the one that the
/// value names, or to `Hue`; the key `left_hand` sets the handedness; any
/// other key changes nothing.
pub proof fn lemma_apply_key_value(options: Options, key: Seq<char>, value: Seq<char>)
    requires
        lacks(key, ':'),
        lacks(value, ':'),
    ensures
        apply_line(options, key_value_line(key, value)) == if key == "color"@ {
            Options {
                color_type: match ColorTypes::named(lowercase(value)) {
                    Some(color) => color,
                    None => ColorTypes::Hue,
                },
                ..options
            }
        } else if key == "left_hand"@ {
            Options { left_handed: value == "true"@, ..options }
        } else {
            options
        },
{
    let line = key_value_line(key, value);
    lemma_first_index(line, ':', key.len() as int);
    assert(line.take(key.len() as int) =~= key);
    let rest = line.skip(key.len() as int + 1);
    assert(rest =~= value);
    lemma_first_index(value, ':', value.len() as int);
    assert(value.take(value.len() as int) =~= value);
}

/// A text that starts with a line without a line feed is read as that line,
/// and then as what follows the line feed.
pub proof fn lemma_apply_first_line(options: Options, line: Seq<char>, rest: Seq<char>)
    requires
        lacks(line, '\n'),
    ensures
        apply_lines(options, line + seq!['\n'] + rest) == apply_lines(
            apply_line(options, line),
            rest,
        ),
{
    let text = line + seq!['\n'] + rest;
    lemma_first_index(text, '\n', line.len() as int);
    assert(text.take(line.len() as int) =~= line);
    assert(text.skip(line.len() as int + 1) =~= rest);
}

/// The empty text changes no option.
pub proof fn lemma_apply_nothing(options: Options)
    ensures
        apply_lines(options, Seq::empty()) == options,
{
    let nothing = Seq::<char>::empty();
    assert(nothing.take(0) =~= nothing);
}

/// The names of the colourings and the texts of the truth values hold
/// neither a colon nor a line feed, and only `true` reads as true.
pub proof fn lemma_written_values(color: ColorTypes, value: bool)
    ensures
        lacks(color.name(), ':'),
        lacks(color.name(), '\n'),
        lacks(bool_text(value), ':'),
        lacks(bool_text(value), '\n'),
        (bool_text(value) == "true"@) == value,
        lacks("color"@, ':'),
        lacks("color"@, '\n'),
        lacks("left_hand"@, ':'),
        lacks("left_hand"@, '\n'),
        "left_hand"@ != "color"@,
        "color:"@ == "color"@ + seq![':'],
        "\nleft_hand:"@ == seq!['\n'] + "left_hand"@ + seq![':'],
        "\n"@ == seq!['\n'],
{
    reveal_strlit("Gray");
    reveal_strlit("Cheap");
    reveal_strlit("Hue");
    reveal_strlit("true");
    reveal_strlit("false");
    reveal_strlit("color");
    reveal_strlit("left_hand");
    reveal_strlit("color:");
    reveal_strlit("\nleft_hand:");
    reveal_strlit("\n");
    let name = color.name();
    assert forall|k: int| 0 <= k < name.len() implies name[k] != ':' && name[k] != '\n' by {
        assert(k == 0 || k == 1 || k == 2 || k == 3 || k == 4);
    }
    let text = bool_text(value);
    assert forall|k: int| 0 <= k < text.len() implies text[k] != ':' && text[k] != '\n' by {
        assert(k == 0 || k == 1 || k == 2 || k == 3 || k == 4);
    }
    assert("false"@.len() != "true"@.len());
    assert forall|k: int| 0 <= k < "color"@.len() implies "color"@[k] != ':' && "color"@[k]
        != '\n' by {
        assert(k == 0 || k == 1 || k == 2 || k == 3 || k == 4);
    }
    assert forall|k: int| 0 <= k < "left_hand"@.len() implies "left_hand"@[k] != ':'
        && "left_hand"@[k] != '\n' by {
        assert(k == 0 || k == 1 || k == 2 || k == 3 || k == 4 || k == 5 || k == 6 || k == 7 || k
            == 8);
    }
    assert("left_hand"@.len() != "color"@.len());
    assert("color:"@ =~= "color"@ + seq![':']);
    assert("\nleft_hand:"@ =~= seq!['\n'] + "left_hand"@ + seq![':']);
    assert("\n"@ =~= seq!['\n']);
}

/// Options that were written are read back: the handedness as it was, and
/// the colouring that the lower-case form of its name names, or `Hue` where
/// that names none. What the text does not hold keeps its default.
pub proof fn lemma_options_read_back(options: Options)
    ensures
        ({
            let read = apply_lines(default_options(), options_text(options));
            &&& read.left_handed == options.left_handed
            &&& read.color_type == match ColorTypes::named(lowercase(options.color_type.name())) {
                Some(color) => color,
                None => ColorTypes::Hue,
            }
            &&& read.filename == default_options().filename
            &&& read.framerate == default_options().framerate
            &&& read.windowed == default_options().windowed
        }),
{
    lemma_written_values(options.color_type, options.left_handed);
    let name = options.color_type.name();
    let hand = bool_text(options.left_handed);
    let first = key_value_line("color"@, name);
    let second = key_value_line("left_hand"@, hand);
    let tail = second + seq!['\n'] + Seq::<char>::empty();
    assert(options_text(options) =~= first + seq!['\n'] + tail);
    assert(lacks(first, '\n'));
    assert(lacks(second, '\n'));
    let start = default_options();
    lemma_apply_first_line(start, first, tail);
    lemma_apply_key_value(start, "color"@, name);
    let colored = apply_line(start, first);
    lemma_apply_first_line(colored, second, Seq::empty());
    lemma_apply_key_value(colored, "left_hand"@, hand);
    lemma_apply_nothing(apply_line(colored, second));
}

/// Finds the first `mark` of a text from `from` on; the length of the text
/// where there is none.
pub fn find_char(text: &str, from: usize, length: usize, mark: char) -> (place: usize)
    requires
        from <= length,
        length == text@.len(),
    ensures
        from <= place <= length,
        place - from == first_index(text@.skip(from as int), mark),
{
    let mut place: usize = from;
    while place < length && text.get_char(place) != mark
        invariant
            from <= place <= length,
            length == text@.len(),
            forall|k: int| from <= k < place ==> text@[k] != mark,
        decreases length - place,
    {
        place += 1;
    }
    proof {
        lemma_first_index(text@.skip(from as int), mark, place - from);
    }
    place
}

impl Default for Opt {
    /// The options that hold where nothing else was asked for.
    fn default() -> (options: Opt)
        ensures
            options@ == default_options(),
    {
        Opt {
            filename: String::from_str("out.png"),
            color_type: ColorTypes::Hue,
            framerate: Framerates::Two,
            windowed: false,
            left_handed: false,
        }
    }
}

impl Opt {
    /// The text form of these options, as it is kept between runs.
    pub fn parse_to_string(&self) -> (text: String)
        ensures
            text@ == options_text(self@),
    {
        let mut text = String::from_str("color:");
        let color = self.color_type.to_string();
        text.append(color.as_str());
        text.append("\nleft_hand:");
        if self.left_handed {
            text.append("true");
        } else {
            text.append("false");
        }
        text.append("\n");
        text
    }

    /// Reads one line into the options.
    fn parse_line(self, line: &str) -> (options: Opt)
        ensures
            options@ == apply_line(self@, line@),
    {
        let length: usize = line.unicode_len();
        let colon: usize = find_char(line, 0, length, ':');
        assert(line@.skip(0) =~= line@);
        if colon >= length {
            return self;
        }
        let key = line.substring_char(0, colon);
        let end: usize = find_char(line, colon + 1, length, ':');
        let value = line.substring_char(colon + 1, end);
        proof {
            let rest = line@.skip(colon + 1);
            assert(key@ =~= line@.take(colon as int));
            assert(value@ =~= rest.take(first_index(rest, ':') as int));
        }
        if same_text(key, "color") {
            let color_type = match ColorTypes::from_str(value) {
                Ok(color) => color,
                Err(_) => ColorTypes::Hue,
            };
            Opt { color_type, ..self }
        } else if same_text(key, "left_hand") {
            let left_handed = same_text(value, "true");
            Opt { left_handed, ..self }
        } else {
            self
        }
    }

    /// Reads options from their text form, line by line. What the text does
    /// not set keeps its default; a later line overrules an earlier one.
    pub fn parse_from_string(s: String) -> (options: Opt)
        ensures
            options@ == apply_lines(default_options(), s@),
    {
        let text = s.as_str();
        let length: usize = text.unicode_len();
        let mut res = Opt::default();
        let mut start: usize = 0;
        assert(text@.skip(0) =~= text@);
        loop
            invariant
                start <= length,
                length == text@.len(),
                text@ == s@,
                apply_lines(default_options(), s@) == apply_lines(res@, text@.skip(start as int)),
            ensures
                res@ == apply_lines(default_options(), s@),
            decreases length - start,
        {
            let end: usize = find_char(text, start, length, '\n');
            let line = text.substring_char(start, end);
            let ghost rest = text@.skip(start as int);
            proof {
                assert(line@ =~= rest.take(end - start));
            }
            res = res.parse_line(line);
            if end >= length {
                break;
            }
            proof {
                assert(rest.skip(end - start + 1) =~= text@.skip(end + 1));
            }
            start = end + 1;
        }
        res
    }
}

} // verus!
