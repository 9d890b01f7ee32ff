//! The command of the shell group.
use crate::cbor::access::{
    dict_value, entries, entries_of, entry, find_integer, find_text, integer_at, lookup, put,
    required, text_at, text_value,
};
use crate::cbor::decode::{decode_value, CodecError, NESTING_LIMIT};
use crate::cbor::laws::{
    lemma_decode_of_encoding, lemma_dict_well_formed, lemma_entries_well_formed_add,
    lemma_field_well_formed,
};
use crate::cbor::value::{encode_value, well_formed};
use crate::commands::fs::field_depth;
use vstd::utf8::encode_utf8;
use crate::cbor::value::{lemma_array_model, models, pair_models, CborModel, CborValue};
use crate::commands::errors::{rc_max, rc_min};
use crate::commands::{CommandIdentity, Direction, McuMgrCommand};
use vstd::prelude::*;

verus! {

broadcast use vstd::string::group_string_axioms;

/// The number of the shell group.
pub const GROUP_SHELL: u16 = 9;

/// Runs a command line in the shell of the device.
#[derive(Debug, Clone, PartialEq, Eq)]
pub struct ShellCommandLineExecute {
    /// The words of the command line.
    pub argv: Vec<String>,
}

/// The model of [`ShellCommandLineExecute`].
pub struct ShellCommandLineExecuteView {
    pub argv: Seq<Seq<char>>,
}

/// The texts of a sequence of strings.
pub open spec fn texts(words: Seq<String>) -> Seq<Seq<char>> {
    Seq::new(words.len(), |i: int| words[i]@)
}

/// The text items of a sequence of texts.
pub open spec fn text_items(words: Seq<Seq<char>>) -> Seq<CborModel> {
    Seq::new(words.len(), |i: int| CborModel::Text(words[i]))
}

/// Whether every item is a text.
pub open spec fn all_texts(items: Seq<CborModel>) -> bool {
    forall|i: int| 0 <= i < items.len() ==> (#[trigger] items[i]) is Text
}

/// The texts of items that are texts.
pub open spec fn texts_of(items: Seq<CborModel>) -> Seq<Seq<char>> {
    Seq::new(items.len(), |i: int| items[i]->Text_0)
}

impl View for ShellCommandLineExecute {
    type V = ShellCommandLineExecuteView;

    open spec fn view(&self) -> ShellCommandLineExecuteView {
        ShellCommandLineExecuteView { argv: texts(self.argv@) }
    }
}

impl ShellCommandLineExecuteView {
    /// The payload: the words as an array of texts under `argv`.
    pub open spec fn payload(self) -> CborModel {
        CborModel::Dict(seq![entry("argv"@, CborModel::Array(text_items(self.argv)))])
    }

    /// The request that a payload spells.
    pub open spec fn parse(m: CborModel) -> Result<ShellCommandLineExecuteView, CodecError> {
        match entries_of(m) {
            None => Err(CodecError::Mismatch),
            Some(es) => match lookup(es, "argv"@) {
                Some(CborModel::Array(items)) => if all_texts(items) {
                    Ok(ShellCommandLineExecuteView { argv: texts_of(items) })
                } else {
                    Err(CodecError::Mismatch)
                },
                _ => Err(CodecError::Mismatch),
            },
        }
    }
}

/// What the shell gave.
#[derive(Debug, Clone, PartialEq, Eq)]
pub struct ShellCommandLineExecuteResponse {
    /// What the command wrote.
    pub o: String,
    /// The code that the command ended with.
    pub ret: i32,
}

/// The model of [`ShellCommandLineExecuteResponse`].
pub struct ShellCommandLineExecuteResponseView {
    pub o: Seq<char>,
    pub ret: i32,
}

impl View for ShellCommandLineExecuteResponse {
    type V = ShellCommandLineExecuteResponseView;

    open spec fn view(&self) -> ShellCommandLineExecuteResponseView {
        ShellCommandLineExecuteResponseView { o: self.o@, ret: self.ret }
    }
}

impl ShellCommandLineExecuteResponseView {
    /// The payload: `o` and `ret`.
    pub open spec fn payload(self) -> CborModel {
        CborModel::Dict(
            seq![
                entry("o"@, CborModel::Text(self.o)),
                entry("ret"@, crate::cbor::value::integer(self.ret as int)),
            ],
        )
    }

    /// The response that a payload spells.
    pub open spec fn parse(m: CborModel) -> Result<ShellCommandLineExecuteResponseView, CodecError> {
        match entries_of(m) {
            None => Err(CodecError::Mismatch),
            Some(es) => {
                let o = required(text_at(es, "o"@));
                let ret = required(integer_at(es, "ret"@, rc_min(), rc_max()));
                if o is Ok && ret is Ok {
                    Ok(ShellCommandLineExecuteResponseView { o: o->Ok_0, ret: ret->Ok_0 as i32 })
                } else {
                    Err(CodecError::Mismatch)
                }
            },
        }
    }
}

impl ShellCommandLineExecuteResponse {
    /// Reads a response from its payload.
    pub fn from_value(value: &CborValue) -> (r: Result<ShellCommandLineExecuteResponse, CodecError>)
        ensures
            match ShellCommandLineExecuteResponseView::parse(value@) {
                Ok(e) => r matches Ok(x) && x@ == e,
                Err(e) => r matches Err(f) && f == e,
            },
    {
        let es = entries(value)?;
        let o = find_text(es, "o")?;
        let ret = find_integer(es, "ret", -0x8000_0000, 0x7fff_ffff)?;
        match (o, ret) {
            (Some(o), Some(ret)) => Ok(ShellCommandLineExecuteResponse { o, ret: ret as i32 }),
            _ => Err(CodecError::Mismatch),
        }
    }
}

impl ShellCommandLineExecute {
    /// The identity of the command: write `0` of the shell group.
    pub open spec fn identity() -> CommandIdentity {
        CommandIdentity { group_id: GROUP_SHELL, command_id: 0, direction: Direction::Write }
    }

    /// The payload of this request.
    pub fn to_value(&self) -> (v: CborValue)
        ensures
            v@ == self@.payload(),
    {
        let mut items: Vec<CborValue> = Vec::new();
        let mut i: usize = 0;
        while i < self.argv.len()
            invariant
                i <= self.argv.len(),
                items.len() == i,
                forall|j: int| 0 <= j < i ==> (#[trigger] items[j])@ == CborModel::Text(self.argv[j]@),
            decreases self.argv.len() - i,
        {
            items.push(text_value(self.argv[i].as_str()));
            i = i + 1;
        }
        assert(models(items@) =~= text_items(self@.argv));
        proof {
            lemma_array_model(items);
        }
        let mut es: Vec<(CborValue, CborValue)> = Vec::new();
        put(&mut es, "argv", CborValue::Array(items));
        assert(pair_models(es@) =~= self@.payload()->Dict_0);
        dict_value(es)
    }
}

impl McuMgrCommand for ShellCommandLineExecute {
    type Response = ShellCommandLineExecuteResponse;

    fn is_write_operation(&self) -> (w: bool)
        ensures
            w,
    {
        true
    }

    fn group_id(&self) -> (g: u16)
        ensures
            g == GROUP_SHELL,
    {
        GROUP_SHELL
    }

    fn command_id(&self) -> (c: u8)
        ensures
            c == 0,
    {
        0
    }

    fn data(&self) -> (v: CborValue)
        ensures
            v@ == self@.payload(),
    {
        self.to_value()
    }

    fn parse_response(&self, payload: &CborValue) -> (r: Result<
        ShellCommandLineExecuteResponse,
        CodecError,
    >)
        ensures
            match ShellCommandLineExecuteResponseView::parse(payload@) {
                Ok(e) => r matches Ok(x) && x@ == e,
                Err(e) => r matches Err(f) && f == e,
            },
    {
        ShellCommandLineExecuteResponse::from_value(payload)
    }
}

/// A shell request reads back from its payload as it was.
pub proof fn lemma_shell_round_trip(e: ShellCommandLineExecuteView)
    ensures
        ShellCommandLineExecuteView::parse(e.payload()) == Ok::<
            ShellCommandLineExecuteView,
            CodecError,
        >(e),
{
    assert(texts_of(text_items(e.argv)) =~= e.argv);
}

/// A shell response reads back from its payload as it was.
pub proof fn lemma_shell_response_round_trip(e: ShellCommandLineExecuteResponseView)
    ensures
        ShellCommandLineExecuteResponseView::parse(e.payload()) == Ok::<
            ShellCommandLineExecuteResponseView,
            CodecError,
        >(e),
{
    reveal_strlit("o");
    reveal_strlit("ret");
    assert("o"@.len() == 1 && "ret"@.len() == 3);
    reveal_with_fuel(crate::cbor::access::lookup_from, 3);
}

/// A shell request that is written out and read back from the bytes is as
/// it was, where its lengths can be written.
pub proof fn lemma_shell_written_and_read(e: ShellCommandLineExecuteView)
    requires
        e.argv.len() <= u64::MAX,
        forall|i: int| 0 <= i < e.argv.len() ==> encode_utf8(#[trigger] e.argv[i]).len()
            <= u64::MAX,
    ensures
        well_formed(e.payload(), NESTING_LIMIT as nat),
        decode_value(encode_value(e.payload())) == Some(e.payload()),
        ShellCommandLineExecuteView::parse(e.payload()) == Ok::<ShellCommandLineExecuteView, CodecError>(e),
{
    reveal_strlit("argv");
    let d = field_depth();
    let words = text_items(e.argv);
    assert forall|i: int| 0 <= i < words.len() implies well_formed(
        #[trigger] words[i],
        (d - 1) as nat,
    ) by {
        assert(words[i] == CborModel::Text(e.argv[i]));
    }
    lemma_field_well_formed("argv"@, CborModel::Array(words), d);
    lemma_dict_well_formed(e.payload()->Dict_0, d);
    lemma_decode_of_encoding(e.payload());
    lemma_shell_round_trip(e);
}

/// A shell response that is written out and read back from the bytes is
/// as it was, where its lengths can be written.
pub proof fn lemma_shell_response_written_and_read(e: ShellCommandLineExecuteResponseView)
    requires
        encode_utf8(e.o).len() <= u64::MAX,
    ensures
        well_formed(e.payload(), NESTING_LIMIT as nat),
        decode_value(encode_value(e.payload())) == Some(e.payload()),
        ShellCommandLineExecuteResponseView::parse(e.payload()) == Ok::<ShellCommandLineExecuteResponseView, CodecError>(e),
{
    reveal_strlit("o");
    reveal_strlit("ret");
    let d = field_depth();
    let ret = crate::cbor::value::integer(e.ret as int);
    let a = seq![entry("o"@, CborModel::Text(e.o))];
    let b = seq![entry("ret"@, ret)];
    lemma_field_well_formed("o"@, CborModel::Text(e.o), d);
    lemma_field_well_formed("ret"@, ret, d);
    lemma_entries_well_formed_add(a, b, d);
    assert(e.payload()->Dict_0 =~= a + b);
    lemma_dict_well_formed(e.payload()->Dict_0, d);
    lemma_decode_of_encoding(e.payload());
    lemma_shell_response_round_trip(e);
}

} // verus!
