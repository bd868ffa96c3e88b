//! The tokens that interactive controls carry: a tag and one or two
//! identifiers, separated by single spaces.

use vstd::prelude::*;
use vstd::string::StrSliceExecFns;
use crate::state::SearchMode;
use crate::text::{
    decimal_spec, lemma_decimal_lacks, lemma_parse_decimal, lemma_split_append_field,
    lemma_split_nonempty, lemma_split_without_sep, parse_id, parse_id_spec, push_decimal, split,
    split_spec, views,
};

verus! {

/// What an interactive control asks for when it is pressed.
#[derive(Debug, Clone, Copy, PartialEq, Eq)]
pub enum Callback {
    /// End the search.
    Cancel { search_id: usize },
    /// Show one item of a search's page.
    Open { item_id: usize, search_id: usize },
    /// Show a page of the search.
    Page { mode: SearchMode, search_id: usize },
}

/// Why a token is no command.
#[derive(Debug, Clone, Copy, PartialEq, Eq)]
pub enum MalformedCallback {
    /// The first field is none of the known tags.
    UnknownTag,
    /// The tag is known, but the number of fields is not the one it takes.
    FieldCount,
    /// A field that should hold an identifier holds none.
    InvalidId,
}

/// The tag of a page command.
pub open spec fn mode_tag(mode: SearchMode) -> char {
    match mode {
        SearchMode::PrevPage => 'p',
        SearchMode::Direct => 'r',
        SearchMode::NextPage => 's',
    }
}

/// The page command that a tag stands for.
pub open spec fn tag_mode(tag: char) -> Option<SearchMode> {
    if tag == 'p' {
        Some(SearchMode::PrevPage)
    } else if tag == 'r' {
        Some(SearchMode::Direct)
    } else if tag == 's' {
        Some(SearchMode::NextPage)
    } else {
        None
    }
}

/// The token of a command: its tag and its identifiers in decimal, separated
/// by single spaces.
pub open spec fn encode_spec(command: Callback) -> Seq<char> {
    match command {
        Callback::Cancel { search_id } => seq!['c', ' '] + decimal_spec(search_id as nat),
        Callback::Open { item_id, search_id } => seq!['g', ' '] + decimal_spec(item_id as nat)
            + seq![' '] + decimal_spec(search_id as nat),
        Callback::Page { mode, search_id } => seq![mode_tag(mode), ' '] + decimal_spec(
            search_id as nat,
        ),
    }
}

/// The tag that a first field holds, if it is a single character.
pub open spec fn tag_of(field: Seq<char>) -> Option<char> {
    if field.len() == 1 {
        Some(field[0])
    } else {
        None
    }
}

/// A command with one identifier, read from the fields after a known tag.
pub open spec fn decode_one(fields: Seq<Seq<char>>) -> Result<usize, MalformedCallback> {
    if fields.len() != 2 {
        Err(MalformedCallback::FieldCount)
    } else {
        match parse_id_spec(fields[1]) {
            Some(id) => Ok(id),
            None => Err(MalformedCallback::InvalidId),
        }
    }
}

/// A command with two identifiers, read from the fields after a known tag.
pub open spec fn decode_two(fields: Seq<Seq<char>>) -> Result<(usize, usize), MalformedCallback> {
    if fields.len() != 3 {
        Err(MalformedCallback::FieldCount)
    } else {
        match (parse_id_spec(fields[1]), parse_id_spec(fields[2])) {
            (Some(first), Some(second)) => Ok((first, second)),
            _ => Err(MalformedCallback::InvalidId),
        }
    }
}

/// The command that a token denotes. The token is split at every space; the
/// first field is the tag, which fixes how many identifiers follow.
pub open spec fn decode_spec(data: Seq<char>) -> Result<Callback, MalformedCallback> {
    let fields = split_spec(data, ' ');
    match tag_of(fields[0]) {
        None => Err(MalformedCallback::UnknownTag),
        Some(tag) => if tag == 'c' {
            match decode_one(fields) {
                Ok(search_id) => Ok(Callback::Cancel { search_id }),
                Err(e) => Err(e),
            }
        } else if tag == 'g' {
            match decode_two(fields) {
                Ok((item_id, search_id)) => Ok(Callback::Open { item_id, search_id }),
                Err(e) => Err(e),
            }
        } else {
            match tag_mode(tag) {
                None => Err(MalformedCallback::UnknownTag),
                Some(mode) => match decode_one(fields) {
                    Ok(search_id) => Ok(Callback::Page { mode, search_id }),
                    Err(e) => Err(e),
                },
            }
        },
    }
}

impl Callback {
    /// The token to attach to the control that issues this command.
    pub fn encode(&self) -> (token: String)
        ensures
            token@ == encode_spec(*self),
    {
        let mut token = String::new();
        match *self {
            Callback::Cancel { search_id } => {
                token.push('c');
                token.push(' ');
                push_decimal(&mut token, search_id);
            },
            Callback::Open { item_id, search_id } => {
                token.push('g');
                token.push(' ');
                push_decimal(&mut token, item_id);
                token.push(' ');
                push_decimal(&mut token, search_id);
            },
            Callback::Page { mode, search_id } => {
                let tag = match mode {
                    SearchMode::PrevPage => 'p',
                    SearchMode::Direct => 'r',
                    SearchMode::NextPage => 's',
                };
                token.push(tag);
                token.push(' ');
                push_decimal(&mut token, search_id);
            },
        }
        assert(token@ =~= encode_spec(*self));
        token
    }

    /// Reads a token back into the command it denotes.
    pub fn decode(data: &str) -> (command: Result<Callback, MalformedCallback>)
        ensures
            command == decode_spec(data@),
    {
        let fields = split(data, ' ');
        proof {
            lemma_split_nonempty(data@, ' ');
        }
        let ghost texts = views(fields@);
        assert(texts.len() == fields.len());
        assert(fields[0]@ == texts[0]);
        let first = fields[0].as_str();
        if first.unicode_len() != 1 {
            return Err(MalformedCallback::UnknownTag);
        }
        let tag = first.get_char(0);
        if tag == 'g' {
            if fields.len() != 3 {
                return Err(MalformedCallback::FieldCount);
            }
            assert(fields[1]@ == texts[1]);
            assert(fields[2]@ == texts[2]);
            let item = parse_id(fields[1].as_str());
            let search = parse_id(fields[2].as_str());
            return match (item, search) {
                (Some(item_id), Some(search_id)) => Ok(Callback::Open { item_id, search_id }),
                _ => Err(MalformedCallback::InvalidId),
            };
        }
        let mode = if tag == 'p' {
            Some(SearchMode::PrevPage)
        } else if tag == 'r' {
            Some(SearchMode::Direct)
        } else if tag == 's' {
            Some(SearchMode::NextPage)
        } else {
            None
        };
        if tag != 'c' && mode.is_none() {
            return Err(MalformedCallback::UnknownTag);
        }
        if fields.len() != 2 {
            return Err(MalformedCallback::FieldCount);
        }
        assert(fields[1]@ == texts[1]);
        match (parse_id(fields[1].as_str()), mode) {
            (None, _) => Err(MalformedCallback::InvalidId),
            (Some(search_id), None) => Ok(Callback::Cancel { search_id }),
            (Some(search_id), Some(mode)) => Ok(Callback::Page { mode, search_id }),
        }
    }
}

/// The fields of a token whose tag is followed by one identifier.
proof fn lemma_fields_one(tag: char, id: usize)
    requires
        tag != ' ',
    ensures
        split_spec(seq![tag, ' '] + decimal_spec(id as nat), ' ') == seq![
            seq![tag],
            decimal_spec(id as nat),
        ],
{
    let number = decimal_spec(id as nat);
    lemma_decimal_lacks(id as nat, ' ');
    assert(!seq![tag].contains(' '));
    lemma_split_without_sep(seq![tag], ' ');
    lemma_split_append_field(seq![tag], number, ' ');
    assert(seq![tag].push(' ') + number =~= seq![tag, ' '] + number);
    assert(seq![seq![tag]].push(number) =~= seq![seq![tag], number]);
}

/// Every command is read back from its own token.
pub proof fn lemma_decode_encode(command: Callback)
    ensures
        decode_spec(encode_spec(command)) == Ok::<Callback, MalformedCallback>(command),
{
    match command {
        Callback::Cancel { search_id } => {
            lemma_fields_one('c', search_id);
            lemma_parse_decimal(search_id);
        },
        Callback::Open { item_id, search_id } => {
            let first = decimal_spec(item_id as nat);
            let second = decimal_spec(search_id as nat);
            lemma_fields_one('g', item_id);
            lemma_decimal_lacks(search_id as nat, ' ');
            let head = seq!['g', ' '] + first;
            lemma_split_append_field(head, second, ' ');
            assert(head.push(' ') + second =~= encode_spec(command));
            assert(seq![seq!['g'], first].push(second) =~= seq![seq!['g'], first, second]);
            lemma_parse_decimal(item_id);
            lemma_parse_decimal(search_id);
        },
        Callback::Page { mode, search_id } => {
            lemma_fields_one(mode_tag(mode), search_id);
            lemma_parse_decimal(search_id);
        },
    }
}

} // verus!
