//! What a log viewer window shows: the log file of one model, followed as it grows.

use vstd::prelude::*;
use vstd::string::*;
use vstd::utf8::*;

use crate::logs::is_latest;
use crate::logs::is_new_log_path;
use crate::logs::no_log;
use crate::logs::resolve_log_file;
use crate::paths::joined;
use crate::paths::path_stem;
use crate::paths::stem_or_empty;
use crate::scan::views;

verus! {

/// How often a viewer looks for new text, in milliseconds.
pub const TAIL_INTERVAL_MS: u64 = 500;

/// A log viewer: its title, the file that it shows, how many bytes of it were read, and the text
/// that is on display.
#[derive(Debug)]
pub struct LogViewerWindow {
    pub title: String,
    pub log_file: String,
    pub last_offset: usize,
    pub text: String,
}

/// What a `LogViewerWindow` holds.
pub struct LogViewerView {
    pub title: Seq<char>,
    pub log_file: Seq<char>,
    pub last_offset: nat,
    pub text: Seq<char>,
}

impl View for LogViewerWindow {
    type V = LogViewerView;

    open spec fn view(&self) -> LogViewerView {
        LogViewerView {
            title: self.title@,
            log_file: self.log_file@,
            last_offset: self.last_offset as nat,
            text: self.text@,
        }
    }
}

/// What stands in `content` behind its first `offset` bytes.
pub open spec fn text_behind(offset: nat, content: Seq<char>) -> Seq<char> {
    decode_utf8(encode_utf8(content).skip(offset as int))
}

/// The first `offset` bytes of `content` end with a character, or there are no more of them.
pub open spec fn ends_a_character(offset: nat, content: Seq<char>) -> bool {
    let bytes = encode_utf8(content);
    bytes.len() <= offset || is_char_boundary(bytes, offset as int)
}

impl LogViewerView {
    /// The viewer once it has looked at the file: what was appended is added to the text, and an
    /// empty file is read from its start again.
    pub open spec fn looked(self, content: Seq<char>) -> LogViewerView {
        let bytes = encode_utf8(content);
        if bytes.len() > self.last_offset {
            LogViewerView {
                last_offset: bytes.len(),
                text: self.text + text_behind(self.last_offset, content),
                ..self
            }
        } else if content.len() == 0 {
            LogViewerView { last_offset: 0, ..self }
        } else {
            self
        }
    }

    /// The viewer once it has looked at the file several times.
    pub open spec fn looked_at(self, contents: Seq<Seq<char>>) -> LogViewerView
        decreases contents.len(),
    {
        if contents.len() == 0 {
            self
        } else {
            self.looked_at(contents.drop_last()).looked(contents.last())
        }
    }

    /// The viewer once its display was cleared.
    pub open spec fn cleared(self) -> LogViewerView {
        LogViewerView { text: seq![], ..self }
    }
}

impl LogViewerWindow {
    /// A viewer for the log file of a model. `names` are the names of the files in `log_dir`,
    /// where they could be read.
    pub fn new(
        model_name: &str,
        script_path: &str,
        log_dir: &str,
        names: Option<&Vec<String>>,
    ) -> (viewer: Self)
        ensures
            viewer@.title == "Logs — "@ + model_name@,
            viewer@.last_offset == 0,
            viewer@.text.len() == 0,
            ({
                let stem = stem_or_empty(path_stem(script_path@));
                match names {
                    Some(list) => {
                        &&& forall|n: Seq<char>| #[trigger]
                            is_latest(views(list@), stem, n) ==> viewer@.log_file == joined(
                                log_dir@,
                                n,
                            )
                        &&& no_log(views(list@), stem) ==> is_new_log_path(
                            viewer@.log_file,
                            log_dir@,
                            stem,
                        )
                    },
                    None => is_new_log_path(viewer@.log_file, log_dir@, stem),
                }
            }),
    {
        let log_file = resolve_log_file(script_path, log_dir, names);
        LogViewerWindow {
            title: "Logs — ".to_owned().concat(model_name),
            log_file,
            last_offset: 0,
            text: String::new(),
        }
    }

    /// Takes in what the file holds now. Says what is to be added to the display.
    pub fn look(&mut self, content: &str) -> (added: Option<String>)
        requires
            ends_a_character(old(self)@.last_offset, content@),
        ensures
            final(self)@ == old(self)@.looked(content@),
            match added {
                Some(text) => encode_utf8(content@).len() > old(self)@.last_offset && text@
                    == text_behind(old(self)@.last_offset, content@),
                None => encode_utf8(content@).len() <= old(self)@.last_offset,
            },
    {
        let ghost bytes = encode_utf8(content@);
        let length: usize = content.as_bytes().len();
        let offset: usize = self.last_offset;
        if length > offset {
            let (_, rest) = content.split_at(offset);
            let added = rest.to_owned();
            proof {
                assert(bytes.subrange(offset as int, bytes.len() as int) =~= bytes.skip(
                    offset as int,
                ));
                encode_utf8_decode_utf8(rest@);
            }
            self.text.append(rest);
            self.last_offset = length;
            Some(added)
        } else {
            if content.is_empty() && offset > 0 {
                self.last_offset = 0;
            }
            None
        }
    }

    /// Clears the display.
    pub fn clear(&mut self)
        ensures
            final(self)@ == old(self)@.cleared(),
    {
        self.text = String::new();
    }
}

/// Texts are encoded piece by piece, and a piece ends with a character.
proof fn lemma_encoded_pieces(a: Seq<char>, b: Seq<char>)
    ensures
        encode_utf8(a + b) == encode_utf8(a) + encode_utf8(b),
        is_char_boundary(encode_utf8(a + b), encode_utf8(a).len() as int),
    decreases a.len(),
{
    encode_utf8_valid_utf8(a + b);
    if a.len() == 0 {
        assert(a + b =~= b);
        assert(encode_utf8(a) + encode_utf8(b) =~= encode_utf8(b));
    } else {
        let rest = a.drop_first();
        lemma_encoded_pieces(rest, b);
        assert((a + b).drop_first() =~= rest + b);
        assert(encode_utf8(a + b) =~= encode_utf8(a) + encode_utf8(b));
        encode_utf8_first_scalar(a + b);
        assert(pop_first_scalar(encode_utf8(a + b)) =~= encode_utf8(rest + b));
    }
}

/// Nothing is encoded as no bytes, and nothing else is.
proof fn lemma_encoded_length(a: Seq<char>)
    ensures
        encode_utf8(a).len() >= a.len(),
    decreases a.len(),
{
    if a.len() > 0 {
        lemma_encoded_length(a.drop_first());
    }
}

/// Each content of the file continues the one before.
pub open spec fn only_grows(contents: Seq<Seq<char>>) -> bool {
    forall|i: int| 1 <= i < contents.len() ==> contents[i - 1].is_prefix_of(#[trigger] contents[i])
}

/// A viewer that has read nothing yet and looks at a file that only grows adds exactly what the
/// file holds to its display, however often it looks, and each time it looks its offset ends a
/// character.
pub proof fn law_growing_file_is_shown(viewer: LogViewerView, contents: Seq<Seq<char>>)
    requires
        contents.len() > 0,
        only_grows(contents),
        viewer.last_offset == 0,
    ensures
        viewer.looked_at(contents).text == viewer.text + contents.last(),
        viewer.looked_at(contents).last_offset == encode_utf8(contents.last()).len(),
        ends_a_character(viewer.looked_at(contents.drop_last()).last_offset, contents.last()),
    decreases contents.len(),
{
    let before = contents.drop_last();
    let now = contents.last();
    let was: Seq<char> = if before.len() == 0 {
        seq![]
    } else {
        before.last()
    };
    if before.len() > 0 {
        assert forall|i: int| 1 <= i < before.len() implies before[i - 1].is_prefix_of(
            #[trigger] before[i],
        ) by {
            assert(before[i - 1] == contents[i - 1] && before[i] == contents[i]);
        }
        law_growing_file_is_shown(viewer, before);
        assert(contents[contents.len() - 2].is_prefix_of(contents[contents.len() - 1]));
    }
    let seen = viewer.looked_at(before);
    assert(seen.text =~= viewer.text + was);
    let added = now.skip(was.len() as int);
    assert(now =~= was + added);
    lemma_encoded_pieces(was, added);
    lemma_encoded_length(added);
    let bytes = encode_utf8(now);
    assert(bytes.skip(encode_utf8(was).len() as int) =~= encode_utf8(added));
    encode_utf8_decode_utf8(added);
    assert(viewer.text + was + added =~= viewer.text + now);
    if added.len() == 0 {
        assert(now =~= was);
    }
}

/// A viewer whose display was cleared, and that then finds its file empty, starts afresh: what
/// the file holds from there on is shown, and nothing else.
pub proof fn law_cleared_viewer_starts_afresh(viewer: LogViewerView, contents: Seq<Seq<char>>)
    requires
        contents.len() > 0,
        only_grows(contents),
    ensures
        viewer.cleared().looked(seq![]).looked_at(contents).text == contents.last(),
{
    let fresh = viewer.cleared().looked(seq![]);
    law_growing_file_is_shown(fresh, contents);
    assert(fresh.text + contents.last() =~= contents.last());
}

/// What stands behind the bytes of the front of a text is the rest of it.
pub proof fn law_text_behind(front: Seq<char>, rest: Seq<char>)
    ensures
        text_behind(encode_utf8(front).len(), front + rest) == rest,
{
    lemma_encoded_pieces(front, rest);
    assert(encode_utf8(front + rest).skip(encode_utf8(front).len() as int) =~= encode_utf8(rest));
    encode_utf8_decode_utf8(rest);
}

/// A look at a file that has grown behind what was read adds what is new and remembers how many
/// bytes there are; a file that is empty is read from its start again with the display as it is;
/// any other that has no more bytes than were read changes nothing. Title and file stay.
pub proof fn law_look_at_a_file(
    viewer: LogViewerView,
    front: Seq<char>,
    added: Seq<char>,
    shorter: Seq<char>,
)
    requires
        viewer.last_offset == encode_utf8(front).len(),
        added.len() > 0,
        shorter.len() > 0,
        encode_utf8(shorter).len() <= viewer.last_offset,
    ensures
        viewer.looked(front + added) == (LogViewerView {
            title: viewer.title,
            log_file: viewer.log_file,
            last_offset: encode_utf8(front + added).len(),
            text: viewer.text + added,
        }),
        viewer.looked(seq![]) == (LogViewerView {
            title: viewer.title,
            log_file: viewer.log_file,
            last_offset: 0,
            text: viewer.text,
        }),
        viewer.looked(shorter) == viewer,
{
    law_text_behind(front, added);
    lemma_encoded_pieces(front, added);
    lemma_encoded_length(added);
}

/// Clearing the display takes away its text and nothing else: what was read stays read.
pub proof fn law_cleared_display(viewer: LogViewerView)
    ensures
        viewer.cleared().text.len() == 0,
        viewer.cleared().title == viewer.title,
        viewer.cleared().log_file == viewer.log_file,
        viewer.cleared().last_offset == viewer.last_offset,
{
}

} // verus!
