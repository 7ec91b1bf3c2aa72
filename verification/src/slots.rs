//! How much of its context a model uses, as its server tells at `/slots`.
//!
//! Two forms of the answer are read:
//! - an array: `[{"id": 0, "n_ctx": 32000, "n_past": 100, ...}]`
//! - an object: `{"n_ctx": 32000, "slots": [...]}`

use vstd::prelude::*;
use vstd::string::*;

use crate::health_monitor::base_url;
use crate::health_monitor::local_base_url;
use crate::text::append_decimal;
use crate::text::decimal;

verus! {

/// A JSON document.
#[verifier::external_type_specification]
#[verifier::external_body]
pub struct ExValue(serde_json::Value);

/// The reason why a text is no JSON document.
#[verifier::external_type_specification]
#[verifier::external_body]
pub struct ExError(serde_json::Error);

/// What stands at each JSON pointer of a document: its value where it is an unsigned number, or
/// nothing where it is something else.
pub uninterp spec fn json_numbers(doc: serde_json::Value) -> Map<Seq<char>, Option<u64>>;

/// How long the array is at each JSON pointer of a document that leads to one.
pub uninterp spec fn json_lengths(doc: serde_json::Value) -> Map<Seq<char>, usize>;

/// The numbers and the lengths of the arrays of the JSON document that a text writes, where it
/// writes one.
pub uninterp spec fn json_text(body: Seq<char>) -> Option<
    (Map<Seq<char>, Option<u64>>, Map<Seq<char>, usize>),
>;

/// `serde_json::from_str`: reads a JSON document. What it reads depends on the text alone.
#[verifier::external_body]
pub(crate) fn parse_json(body: &str) -> (doc: Result<serde_json::Value, serde_json::Error>)
    ensures
        match doc {
            Ok(v) => json_text(body@) == Some((json_numbers(v), json_lengths(v))),
            Err(_) => json_text(body@) is None,
        },
{
    serde_json::from_str(body)
}

/// `serde_json::Value::pointer` and `serde_json::Value::as_u64`: whether something stands at a
/// JSON pointer, and its value where it is an unsigned number.
#[verifier::external_body]
pub(crate) fn number_at(doc: &serde_json::Value, pointer: &str) -> (found: Option<Option<u64>>)
    ensures
        match found {
            Some(n) => json_numbers(*doc).dom().contains(pointer@)
                && json_numbers(*doc)[pointer@] == n,
            None => !json_numbers(*doc).dom().contains(pointer@),
        },
{
    doc.pointer(pointer).map(|v| v.as_u64())
}

/// `serde_json::Value::pointer` and `serde_json::Value::as_array`: how long the array at a JSON
/// pointer is, where there is one.
#[verifier::external_body]
pub(crate) fn length_at(doc: &serde_json::Value, pointer: &str) -> (length: Option<usize>)
    ensures
        match length {
            Some(n) => json_lengths(*doc).dom().contains(pointer@)
                && json_lengths(*doc)[pointer@] == n,
            None => !json_lengths(*doc).dom().contains(pointer@),
        },
{
    doc.pointer(pointer).and_then(|v| v.as_array()).map(|a| a.len())
}

/// An entry of a slot.
#[derive(Debug, Clone, Copy, PartialEq, Eq, Structural)]
pub enum Field {
    /// There is no such entry.
    Absent,
    /// It is there, and is no unsigned number.
    Other,
    /// It is an unsigned number.
    Number(u64),
}

impl Field {
    /// This entry, or `other` where it is absent.
    pub open spec fn or_spec(self, other: Field) -> Field {
        if self is Absent {
            other
        } else {
            self
        }
    }

    /// This entry, or `other` where it is absent.
    pub fn or(self, other: Field) -> (f: Field)
        ensures
            f == self.or_spec(other),
    {
        match self {
            Field::Absent => other,
            _ => self,
        }
    }

    /// The number of this entry, 0 where it is none.
    pub open spec fn number_spec(self) -> u64 {
        match self {
            Field::Number(n) => n,
            _ => 0,
        }
    }

    /// The number of this entry, 0 where it is none.
    pub fn number(self) -> (n: u64)
        ensures
            n == self.number_spec(),
    {
        match self {
            Field::Number(n) => n,
            _ => 0,
        }
    }
}

/// The entries of a slot that tell of its tokens.
#[derive(Debug, Clone, Copy, PartialEq, Eq, Structural)]
pub struct SlotFields {
    pub n_ctx: Field,
    pub n_prompt_tokens: Field,
    pub prompt_tokens_total: Field,
    pub n_past: Field,
    /// `n_decoded` of the first element of `next_token`, where that is an array.
    pub next_decoded: Field,
    pub generation_tokens_total: Field,
    pub n_decoded: Field,
}

impl SlotFields {
    /// How many tokens of the slot are of the prompt.
    pub open spec fn prompt_spec(self) -> u64 {
        self.n_prompt_tokens.or_spec(self.prompt_tokens_total).or_spec(self.n_past).number_spec()
    }

    /// How many tokens of the slot were generated.
    pub open spec fn generated_spec(self) -> u64 {
        self.next_decoded.or_spec(self.generation_tokens_total).or_spec(
            self.n_decoded,
        ).number_spec()
    }

    /// How many tokens of the slot are of the prompt.
    pub fn prompt(self) -> (n: u64)
        ensures
            n == self.prompt_spec(),
    {
        self.n_prompt_tokens.or(self.prompt_tokens_total).or(self.n_past).number()
    }

    /// How many tokens of the slot were generated.
    pub fn generated(self) -> (n: u64)
        ensures
            n == self.generated_spec(),
    {
        self.next_decoded.or(self.generation_tokens_total).or(self.n_decoded).number()
    }
}

/// What the answer at `/slots` says: the slots of an array, where it is one, and the entries
/// `n_ctx` and `slots` of an object.
#[derive(Debug)]
pub struct SlotsReply {
    pub array: Option<Vec<SlotFields>>,
    pub n_ctx: Field,
    pub slots: Vec<SlotFields>,
}

/// What a `SlotsReply` holds.
pub struct SlotsReplyView {
    pub array: Option<Seq<SlotFields>>,
    pub n_ctx: Field,
    pub slots: Seq<SlotFields>,
}

impl View for SlotsReply {
    type V = SlotsReplyView;

    open spec fn view(&self) -> SlotsReplyView {
        SlotsReplyView {
            array: match self.array {
                Some(a) => Some(a@),
                None => None,
            },
            n_ctx: self.n_ctx,
            slots: self.slots@,
        }
    }
}

/// How much of its context a model uses.
#[derive(Debug, Clone, Copy, PartialEq, Eq, Structural)]
pub struct SlotInfo {
    pub tokens_used: usize,
    pub n_ctx: usize,
}

/// The tokens of all slots.
pub open spec fn total(slots: Seq<SlotFields>) -> nat
    decreases slots.len(),
{
    if slots.len() == 0 {
        0
    } else {
        total(slots.drop_last()) + slots.last().prompt_spec() as nat
            + slots.last().generated_spec() as nat
    }
}

/// More slots never have fewer tokens.
proof fn lemma_total_grows(slots: Seq<SlotFields>, k: int)
    requires
        0 <= k <= slots.len(),
    ensures
        total(slots.take(k)) <= total(slots),
    decreases slots.len(),
{
    if k == slots.len() {
        assert(slots.take(k) =~= slots);
    } else {
        lemma_total_grows(slots.drop_last(), k);
        assert(slots.drop_last().take(k) =~= slots.take(k));
    }
}

/// Adds up the tokens of all slots, unless there are too many of them to count.
pub fn total_tokens(slots: &Vec<SlotFields>) -> (sum: Option<u64>)
    ensures
        match sum {
            Some(n) => n == total(slots@),
            None => total(slots@) > u64::MAX,
        },
{
    let mut sum: u64 = 0;
    let mut i: usize = 0;
    while i < slots.len()
        invariant
            i <= slots@.len(),
            sum == total(slots@.take(i as int)),
        decreases slots@.len() - i,
    {
        proof {
            assert(slots@.take(i + 1).drop_last() =~= slots@.take(i as int));
            lemma_total_grows(slots@, i + 1);
        }
        let with_prompt = sum.checked_add(slots[i].prompt());
        match with_prompt {
            Some(s) => {
                match s.checked_add(slots[i].generated()) {
                    Some(t) => {
                        sum = t;
                    },
                    None => {
                        return None;
                    },
                }
            },
            None => {
                return None;
            },
        }
        i = i + 1;
    }
    proof {
        assert(slots@.take(i as int) =~= slots@);
    }
    Some(sum)
}

impl SlotsReplyView {
    /// The tokens can be counted.
    pub open spec fn countable(self) -> bool {
        &&& self.array matches Some(slots) ==> total(slots) <= u64::MAX
        &&& total(self.slots) <= u64::MAX
    }

    /// The slots of the array and the context of the first of them, where that is known.
    pub open spec fn array_info(self) -> Option<SlotInfo> {
        match self.array {
            Some(slots) => if slots.len() > 0 && slots[0].n_ctx.number_spec() as usize > 0 {
                Some(
                    SlotInfo {
                        tokens_used: total(slots) as u64 as usize,
                        n_ctx: slots[0].n_ctx.number_spec() as usize,
                    },
                )
            } else {
                None
            },
            None => None,
        }
    }

    /// The slots of the object and its context, where that is known.
    pub open spec fn object_info(self) -> Option<SlotInfo> {
        if self.n_ctx.number_spec() as usize > 0 {
            Some(
                SlotInfo {
                    tokens_used: total(self.slots) as u64 as usize,
                    n_ctx: self.n_ctx.number_spec() as usize,
                },
            )
        } else {
            None
        }
    }

    /// How much of its context the model uses, where that is known.
    pub open spec fn info(self) -> Option<SlotInfo> {
        match self.array_info() {
            Some(info) => Some(info),
            None => self.object_info(),
        }
    }
}

impl SlotsReply {
    /// How much of its context the model uses, where that is known.
    pub fn slot_info(&self) -> (info: Option<SlotInfo>)
        requires
            self@.countable(),
        ensures
            info == self@.info(),
    {
        match &self.array {
            Some(slots) => {
                let sum = total_tokens(slots);
                if slots.len() > 0 {
                    let n_ctx: usize = slots[0].n_ctx.number() as usize;
                    if n_ctx > 0 {
                        match sum {
                            Some(n) => {
                                return Some(SlotInfo { tokens_used: n as usize, n_ctx });
                            },
                            None => {},
                        }
                    }
                }
            },
            None => {},
        }
        let n_ctx: usize = self.n_ctx.number() as usize;
        if n_ctx > 0 {
            match total_tokens(&self.slots) {
                Some(n) => Some(SlotInfo { tokens_used: n as usize, n_ctx }),
                None => None,
            }
        } else {
            None
        }
    }

    /// Whether the tokens can be counted.
    pub fn is_countable(&self) -> (yes: bool)
        ensures
            yes == self@.countable(),
    {
        let array_counts = match &self.array {
            Some(slots) => total_tokens(slots).is_some(),
            None => true,
        };
        array_counts && total_tokens(&self.slots).is_some()
    }
}

/// The entry at a JSON pointer.
pub open spec fn entry(numbers: Map<Seq<char>, Option<u64>>, pointer: Seq<char>) -> Field {
    if numbers.dom().contains(pointer) {
        match numbers[pointer] {
            Some(n) => Field::Number(n),
            None => Field::Other,
        }
    } else {
        Field::Absent
    }
}

/// The entries of the slot at a JSON pointer.
pub open spec fn slot_at(
    numbers: Map<Seq<char>, Option<u64>>,
    lengths: Map<Seq<char>, usize>,
    at: Seq<char>,
) -> SlotFields {
    let next = at + "/next_token"@;
    SlotFields {
        n_ctx: entry(numbers, at + "/n_ctx"@),
        n_prompt_tokens: entry(numbers, at + "/n_prompt_tokens"@),
        prompt_tokens_total: entry(numbers, at + "/prompt_tokens_total"@),
        n_past: entry(numbers, at + "/n_past"@),
        next_decoded: if lengths.dom().contains(next) && lengths[next] > 0 {
            entry(numbers, next + "/0/n_decoded"@)
        } else {
            Field::Absent
        },
        generation_tokens_total: entry(numbers, at + "/generation_tokens_total"@),
        n_decoded: entry(numbers, at + "/n_decoded"@),
    }
}

/// The JSON pointer of an element of the array at `at`.
pub open spec fn element(at: Seq<char>, i: int) -> Seq<char> {
    at + "/"@ + decimal(i as nat)
}

/// The slots of the array at a JSON pointer, none where there is no array.
pub open spec fn slots_at(
    numbers: Map<Seq<char>, Option<u64>>,
    lengths: Map<Seq<char>, usize>,
    at: Seq<char>,
) -> Seq<SlotFields> {
    if lengths.dom().contains(at) {
        Seq::new(lengths[at] as nat, |i: int| slot_at(numbers, lengths, element(at, i)))
    } else {
        seq![]
    }
}

/// What the answer says whose numbers and arrays these are.
pub open spec fn reply_of(
    numbers: Map<Seq<char>, Option<u64>>,
    lengths: Map<Seq<char>, usize>,
) -> SlotsReplyView {
    SlotsReplyView {
        array: if lengths.dom().contains(""@) {
            Some(slots_at(numbers, lengths, ""@))
        } else {
            None
        },
        n_ctx: entry(numbers, "/n_ctx"@),
        slots: slots_at(numbers, lengths, "/slots"@),
    }
}

fn read_entry(doc: &serde_json::Value, pointer: &str) -> (f: Field)
    ensures
        f == entry(json_numbers(*doc), pointer@),
{
    match number_at(doc, pointer) {
        Some(Some(n)) => Field::Number(n),
        Some(None) => Field::Other,
        None => Field::Absent,
    }
}

fn behind(at: &str, key: &str) -> (pointer: String)
    ensures
        pointer@ == at@ + key@,
{
    let mut pointer = at.to_owned();
    pointer.append(key);
    pointer
}

fn read_slot(doc: &serde_json::Value, at: &str) -> (slot: SlotFields)
    ensures
        slot == slot_at(json_numbers(*doc), json_lengths(*doc), at@),
{
    let next = behind(at, "/next_token");
    let next_decoded = match length_at(doc, next.as_str()) {
        Some(n) => if n > 0 {
            read_entry(doc, behind(next.as_str(), "/0/n_decoded").as_str())
        } else {
            Field::Absent
        },
        None => Field::Absent,
    };
    SlotFields {
        n_ctx: read_entry(doc, behind(at, "/n_ctx").as_str()),
        n_prompt_tokens: read_entry(doc, behind(at, "/n_prompt_tokens").as_str()),
        prompt_tokens_total: read_entry(doc, behind(at, "/prompt_tokens_total").as_str()),
        n_past: read_entry(doc, behind(at, "/n_past").as_str()),
        next_decoded,
        generation_tokens_total: read_entry(doc, behind(at, "/generation_tokens_total").as_str()),
        n_decoded: read_entry(doc, behind(at, "/n_decoded").as_str()),
    }
}

fn read_slots_at(doc: &serde_json::Value, at: &str, length: usize) -> (slots: Vec<SlotFields>)
    requires
        json_lengths(*doc).dom().contains(at@),
        json_lengths(*doc)[at@] == length,
    ensures
        slots@ == slots_at(json_numbers(*doc), json_lengths(*doc), at@),
{
    let ghost wanted = slots_at(json_numbers(*doc), json_lengths(*doc), at@);
    let mut slots: Vec<SlotFields> = Vec::new();
    let mut i: usize = 0;
    while i < length
        invariant
            i <= length,
            wanted == slots_at(json_numbers(*doc), json_lengths(*doc), at@),
            wanted.len() == length,
            json_lengths(*doc).dom().contains(at@),
            slots@ == wanted.take(i as int),
        decreases length - i,
    {
        let mut pointer = behind(at, "/");
        append_decimal(&mut pointer, i as u64);
        slots.push(read_slot(doc, pointer.as_str()));
        proof {
            assert(wanted.take(i + 1) =~= wanted.take(i as int).push(wanted[i as int]));
        }
        i = i + 1;
    }
    proof {
        assert(wanted.take(i as int) =~= wanted);
    }
    slots
}

/// Reads the answer at `/slots`, where it is a JSON document.
pub fn read_slots(body: &str) -> (reply: Option<SlotsReply>)
    ensures
        match json_text(body@) {
            Some((numbers, lengths)) => (reply matches Some(r) && r@ == reply_of(numbers, lengths)),
            None => reply is None,
        },
{
    match parse_json(body) {
        Ok(doc) => {
            let array = match length_at(&doc, "") {
                Some(n) => Some(read_slots_at(&doc, "", n)),
                None => None,
            };
            let slots = match length_at(&doc, "/slots") {
                Some(n) => read_slots_at(&doc, "/slots", n),
                None => Vec::new(),
            };
            Some(SlotsReply { array, n_ctx: read_entry(&doc, "/n_ctx"), slots })
        },
        Err(_) => None,
    }
}

/// Reads from the answer at `/slots` how much of its context a model uses. Nothing comes back
/// where the answer is no JSON document, where the context is not known, and where the tokens are
/// too many to count.
pub fn parse_slots_response(body: &str) -> (info: Option<SlotInfo>)
    ensures
        info == match json_text(body@) {
            Some((numbers, lengths)) => if reply_of(numbers, lengths).countable() {
                reply_of(numbers, lengths).info()
            } else {
                None
            },
            None => None,
        },
{
    match read_slots(body) {
        Some(reply) => if reply.is_countable() {
            reply.slot_info()
        } else {
            None
        },
        None => None,
    }
}

/// Where a model's server tells of its slots.
pub fn slots_url(port: u16) -> (url: String)
    ensures
        url@ == base_url(port) + "/slots"@,
{
    local_base_url(port).concat("/slots")
}

/// `tokens_used` are at least `percent` percent of `n_ctx`.
pub open spec fn uses_percent(tokens_used: nat, n_ctx: nat, percent: nat) -> bool {
    n_ctx > 0 && tokens_used * 100 >= percent * n_ctx
}

/// Whether `tokens_used` are at least `percent` percent of `n_ctx`.
pub fn at_least_percent(tokens_used: usize, n_ctx: usize, percent: u8) -> (yes: bool)
    ensures
        yes == uses_percent(tokens_used as nat, n_ctx as nat, percent as nat),
{
    proof {
        assert(percent as int * n_ctx as int <= 255 * 0xffff_ffff_ffff_ffff) by (nonlinear_arith)
            requires
                percent <= 255,
                n_ctx <= 0xffff_ffff_ffff_ffff,
        ;
    }
    n_ctx > 0 && tokens_used as u128 * 100 >= percent as u128 * n_ctx as u128
}

/// The first entry of three that is there is the one that counts, whatever stands behind it, and
/// it counts only as a number.
pub proof fn law_first_entry_counts(a: Field, b: Field, c: Field, n: u64)
    ensures
        a == Field::Number(n) ==> a.or_spec(b) == a && a.number_spec() == n,
        a == Field::Other ==> a.or_spec(b) == a && a.number_spec() == 0,
        a == Field::Absent ==> a.or_spec(b) == b && a.number_spec() == 0,
        a.or_spec(b).or_spec(c) == a.or_spec(b.or_spec(c)),
{
}

/// The tokens of the prompt are what the first of `n_prompt_tokens`, `prompt_tokens_total` and
/// `n_past` says that is there, 0 where that is no number or none is there; the other entries of
/// the slot have no part in it.
pub proof fn law_prompt_tokens(slot: SlotFields, n: u64)
    ensures
        slot.n_prompt_tokens == Field::Number(n) ==> slot.prompt_spec() == n,
        slot.n_prompt_tokens is Other ==> slot.prompt_spec() == 0,
        slot.n_prompt_tokens is Absent && slot.prompt_tokens_total == Field::Number(n)
            ==> slot.prompt_spec() == n,
        slot.n_prompt_tokens is Absent && slot.prompt_tokens_total is Other ==> slot.prompt_spec()
            == 0,
        slot.n_prompt_tokens is Absent && slot.prompt_tokens_total is Absent && slot.n_past
            == Field::Number(n) ==> slot.prompt_spec() == n,
        slot.n_prompt_tokens is Absent && slot.prompt_tokens_total is Absent && !(
        slot.n_past is Number) ==> slot.prompt_spec() == 0,
{
}

/// The generated tokens are what the first of the `n_decoded` under `next_token`,
/// `generation_tokens_total` and `n_decoded` says that is there, 0 where that is no number or none
/// is there; the other entries of the slot, those of the prompt among them, have no part in it.
pub proof fn law_generated_tokens(slot: SlotFields, n: u64)
    ensures
        slot.next_decoded == Field::Number(n) ==> slot.generated_spec() == n,
        slot.next_decoded is Other ==> slot.generated_spec() == 0,
        slot.next_decoded is Absent && slot.generation_tokens_total == Field::Number(n)
            ==> slot.generated_spec() == n,
        slot.next_decoded is Absent && slot.generation_tokens_total is Other
            ==> slot.generated_spec() == 0,
        slot.next_decoded is Absent && slot.generation_tokens_total is Absent && slot.n_decoded
            == Field::Number(n) ==> slot.generated_spec() == n,
        slot.next_decoded is Absent && slot.generation_tokens_total is Absent && !(
        slot.n_decoded is Number) ==> slot.generated_spec() == 0,
{
}

/// Prompt and generated tokens of a slot add up: where both are told, a slot has as many tokens
/// as the two together.
pub proof fn law_slot_has_prompt_and_generated_tokens(slot: SlotFields, p: u64, g: u64)
    requires
        slot.n_prompt_tokens == Field::Number(p) || (slot.n_prompt_tokens is Absent && (
        slot.prompt_tokens_total == Field::Number(p) || (slot.prompt_tokens_total is Absent
            && slot.n_past == Field::Number(p)))),
        slot.next_decoded == Field::Number(g) || (slot.next_decoded is Absent && (
        slot.generation_tokens_total == Field::Number(g) || (slot.generation_tokens_total is Absent
            && slot.n_decoded == Field::Number(g)))),
    ensures
        total(seq![slot]) == p + g,
{
    assert(seq![slot].drop_last() =~= Seq::<SlotFields>::empty());
    assert(seq![slot].last() == slot);
    reveal_with_fuel(total, 2);
}

/// No slots have no tokens, one has those of its prompt and its generated ones, and two lists of
/// slots together have the tokens of both.
pub proof fn law_tokens_add_up(one: SlotFields, a: Seq<SlotFields>, b: Seq<SlotFields>)
    ensures
        total(Seq::<SlotFields>::empty()) == 0,
        total(seq![one]) == one.prompt_spec() + one.generated_spec(),
        total(a + b) == total(a) + total(b),
    decreases b.len(),
{
    assert(seq![one].drop_last() =~= Seq::<SlotFields>::empty());
    assert(seq![one].last() == one);
    reveal_with_fuel(total, 2);
    if b.len() == 0 {
        assert(a + b =~= a);
    } else {
        law_tokens_add_up(one, a, b.drop_last());
        assert((a + b).drop_last() =~= a + b.drop_last());
        assert((a + b).last() == b.last());
    }
}

/// An array whose first slot tells its context is what counts, with the tokens of all its slots;
/// else an object that tells its context is, with the tokens of its slots; else nothing is known.
pub proof fn law_context_in_use(reply: SlotsReplyView, slots: Seq<SlotFields>, n: u64)
    requires
        0 < n <= usize::MAX,
    ensures
        reply.array == Some(slots) && slots.len() > 0 && slots[0].n_ctx == Field::Number(n)
            && total(slots) <= usize::MAX ==> (reply.info() matches Some(info) && info.n_ctx == n
            && info.tokens_used == total(slots)),
        (reply.array is None || (reply.array == Some(slots) && (slots.len() == 0 || !(
        slots[0].n_ctx is Number) || slots[0].n_ctx == Field::Number(0)))) && reply.n_ctx
            == Field::Number(n) && total(reply.slots) <= usize::MAX ==> (
        reply.info() matches Some(info) && info.n_ctx == n && info.tokens_used == total(
            reply.slots,
        )),
        (reply.array is None || (reply.array == Some(slots) && (slots.len() == 0 || !(
        slots[0].n_ctx is Number) || slots[0].n_ctx == Field::Number(0)))) && (!(
        reply.n_ctx is Number) || reply.n_ctx == Field::Number(0)) ==> reply.info() is None,
{
}

/// Tokens can be counted as long as those of the array, where there is one, and those of the
/// object each stay below two to the power of 64.
pub proof fn law_countable_replies(reply: SlotsReplyView, slots: Seq<SlotFields>)
    ensures
        reply.array is None ==> (reply.countable() <==> total(reply.slots)
            <= 0xffff_ffff_ffff_ffff),
        reply.array == Some(slots) ==> (reply.countable() <==> total(slots)
            <= 0xffff_ffff_ffff_ffff && total(reply.slots) <= 0xffff_ffff_ffff_ffff),
{
}

/// An entry is what stands at its JSON pointer.
pub proof fn law_entries(numbers: Map<Seq<char>, Option<u64>>, pointer: Seq<char>, n: u64)
    ensures
        entry(numbers, pointer) is Absent <==> !numbers.dom().contains(pointer),
        entry(numbers, pointer) == Field::Number(n) <==> numbers.dom().contains(pointer)
            && numbers[pointer] == Some(n),
        entry(numbers, pointer) is Other <==> numbers.dom().contains(pointer)
            && numbers[pointer] is None,
{
}

/// Each entry of a slot stands under its own key; the `n_decoded` of `next_token` is that of the
/// first element of a list that has one.
pub proof fn law_keys_of_a_slot(
    numbers: Map<Seq<char>, Option<u64>>,
    lengths: Map<Seq<char>, usize>,
    at: Seq<char>,
)
    ensures
        ({
            let slot = slot_at(numbers, lengths, at);
            let next = at + "/next_token"@;
            &&& slot.n_ctx == entry(numbers, at + "/n_ctx"@)
            &&& slot.n_prompt_tokens == entry(numbers, at + "/n_prompt_tokens"@)
            &&& slot.prompt_tokens_total == entry(numbers, at + "/prompt_tokens_total"@)
            &&& slot.n_past == entry(numbers, at + "/n_past"@)
            &&& slot.generation_tokens_total == entry(numbers, at + "/generation_tokens_total"@)
            &&& slot.n_decoded == entry(numbers, at + "/n_decoded"@)
            &&& lengths.dom().contains(next) && lengths[next] > 0 ==> slot.next_decoded == entry(
                numbers,
                next + "/0/n_decoded"@,
            )
            &&& !lengths.dom().contains(next) || lengths[next] == 0 ==> slot.next_decoded is Absent
        }),
{
}

/// A reply that is an array has a slot for each of its elements, at the pointer of its number; the
/// slots of one that is an object stand under `slots`, and its context under `n_ctx`.
pub proof fn law_slots_of_a_reply(
    numbers: Map<Seq<char>, Option<u64>>,
    lengths: Map<Seq<char>, usize>,
    i: int,
)
    ensures
        ({
            let reply = reply_of(numbers, lengths);
            &&& reply.array is Some <==> lengths.dom().contains(""@)
            &&& reply.array matches Some(slots) ==> slots.len() == lengths[""@] && (0 <= i
                < slots.len() ==> slots[i] == slot_at(numbers, lengths, "/"@ + decimal(i as nat)))
            &&& reply.n_ctx == entry(numbers, "/n_ctx"@)
            &&& !lengths.dom().contains("/slots"@) ==> reply.slots.len() == 0
            &&& lengths.dom().contains("/slots"@) ==> reply.slots.len() == lengths["/slots"@] && (0
                <= i < reply.slots.len() ==> reply.slots[i] == slot_at(
                numbers,
                lengths,
                "/slots/"@ + decimal(i as nat),
            ))
        }),
{
    reveal_strlit("");
    reveal_strlit("/");
    reveal_strlit("/slots");
    reveal_strlit("/slots/");
    assert(""@ + "/"@ =~= "/"@);
    assert("/slots"@ + "/"@ =~= "/slots/"@);
}

/// A percentage is reached exactly where the tokens, a hundred times over, are no fewer than that
/// many contexts; more tokens and a lower percentage only help, and of no context nothing is used.
pub proof fn law_percentages(tokens: nat, more: nat, n_ctx: nat, percent: nat, lower: nat)
    requires
        tokens <= more,
        lower <= percent,
    ensures
        uses_percent(tokens, n_ctx, percent) <==> n_ctx > 0 && tokens * 100 >= percent * n_ctx,
        uses_percent(tokens, n_ctx, percent) ==> uses_percent(more, n_ctx, percent)
            && uses_percent(tokens, n_ctx, lower),
        n_ctx > 0 ==> uses_percent(n_ctx, n_ctx, 100) && uses_percent(0, n_ctx, 0),
        n_ctx > 0 && tokens < n_ctx ==> !uses_percent(tokens, n_ctx, 100),
        !uses_percent(tokens, 0, percent),
{
    assert(lower * n_ctx <= percent * n_ctx) by (nonlinear_arith)
        requires
            lower <= percent,
    ;
}

} // verus!
