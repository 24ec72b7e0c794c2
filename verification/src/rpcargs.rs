//! The directory commands' argument decode: the host hands arguments over
//! as loosely-typed JSON (a bare string, a positional array, an object, or
//! a number); the accepted shapes are an explicit, enumerated union.

use vstd::prelude::*;
use crate::metadata::UserMetadata;
use crate::text::std_parse_bool;

verus! {

/// One argument value, reduced to the kinds the commands accept: a string,
/// a number (carried as its decimal text), a boolean, or anything else.
#[derive(Clone, Debug)]
pub enum RpcArg {
    Str(String),
    Num(String),
    Bool(bool),
    Other,
}

/// A whole argument list: a bare value, a positional list, an object with
/// the three known keys, or an unusable shape.
#[derive(Clone, Debug)]
pub enum RpcArgs {
    One(RpcArg),
    List(Vec<RpcArg>),
    Object { user: Option<RpcArg>, is_email: Option<RpcArg>, description: Option<RpcArg> },
    Other,
}

/// Why a command's arguments were refused.
#[derive(Clone, Copy, Debug, PartialEq, Eq, Structural)]
pub enum ArgError {
    InvalidInputType,
    EmptyArray,
    InvalidIsEmail,
    InvalidIsEmailValue,
    InvalidDescription,
    InvalidUserElement,
    MissingUserField,
    InvalidUserField,
    MissingUserElement,
    NotAString,
}

impl ArgError {
    /// The message the caller gets.
    pub open spec fn reason_spec(self) -> Seq<char> {
        match self {
            ArgError::InvalidInputType => "Not a valid input type"@,
            ArgError::EmptyArray => "Empty array input"@,
            ArgError::InvalidIsEmail => "`is_email` has invalid type"@,
            ArgError::InvalidIsEmailValue => "provided string was not `true` or `false`"@,
            ArgError::InvalidDescription => "`description` has invalid type"@,
            ArgError::InvalidUserElement => "Array user element has invalid type"@,
            ArgError::MissingUserField => "`user` field not found in object"@,
            ArgError::InvalidUserField => "user field has invalid type"@,
            ArgError::MissingUserElement => "`user` element not found in object"@,
            ArgError::NotAString => "Array elemnt not a string"@,
        }
    }

    /// Renders the message.
    pub fn reason(&self) -> (r: String)
        ensures
            r@ == self.reason_spec(),
    {
        match self {
            ArgError::InvalidInputType => "Not a valid input type".to_owned(),
            ArgError::EmptyArray => "Empty array input".to_owned(),
            ArgError::InvalidIsEmail => "`is_email` has invalid type".to_owned(),
            ArgError::InvalidIsEmailValue => "provided string was not `true` or `false`".to_owned(),
            ArgError::InvalidDescription => "`description` has invalid type".to_owned(),
            ArgError::InvalidUserElement => "Array user element has invalid type".to_owned(),
            ArgError::MissingUserField => "`user` field not found in object".to_owned(),
            ArgError::InvalidUserField => "user field has invalid type".to_owned(),
            ArgError::MissingUserElement => "`user` element not found in object".to_owned(),
            ArgError::NotAString => "Array elemnt not a string".to_owned(),
        }
    }
}

/// What an optional `is_email` argument means: a boolean as itself, a
/// string through `bool` parsing, nothing when absent.
pub open spec fn is_email_verdict(v: Option<RpcArg>) -> Result<Option<bool>, ArgError> {
    match v {
        None => Ok(None),
        Some(RpcArg::Bool(b)) => Ok(Some(b)),
        Some(RpcArg::Str(s)) => match std_parse_bool(s@) {
            Some(b) => Ok(Some(b)),
            None => Err(ArgError::InvalidIsEmailValue),
        },
        Some(_) => Err(ArgError::InvalidIsEmail),
    }
}

/// What an optional `description` argument means: a string as itself, a
/// number as its text, nothing when absent.
pub open spec fn description_verdict(v: Option<RpcArg>) -> Result<Option<Seq<char>>, ArgError> {
    match v {
        None => Ok(None),
        Some(RpcArg::Str(s)) => Ok(Some(s@)),
        Some(RpcArg::Num(n)) => Ok(Some(n@)),
        Some(_) => Err(ArgError::InvalidDescription),
    }
}

/// What a username argument means: a string as itself, a number as its
/// text; the error names the shape that was refused.
pub open spec fn user_elem_verdict(v: RpcArg, e: ArgError) -> Result<Seq<char>, ArgError> {
    match v {
        RpcArg::Str(s) => Ok(s@),
        RpcArg::Num(n) => Ok(n@),
        _ => Err(e),
    }
}

/// The whole add-user decode: the username plus the decoded metadata, or
/// the first refusal in the order the fields are examined (the optional
/// fields first, then the username).
pub open spec fn user_add_verdict(args: RpcArgs) -> Result<
    (Seq<char>, Option<bool>, Option<Seq<char>>),
    ArgError,
> {
    match args {
        RpcArgs::One(RpcArg::Str(s)) => Ok((s@, None::<bool>, None::<Seq<char>>)),
        RpcArgs::One(RpcArg::Num(n)) => Ok((n@, None::<bool>, None::<Seq<char>>)),
        RpcArgs::One(_) => Err(ArgError::InvalidInputType),
        RpcArgs::Other => Err(ArgError::InvalidInputType),
        RpcArgs::List(items) => match is_email_verdict(
            if items@.len() > 1 {
                Some(items@[1])
            } else {
                None
            },
        ) {
            Err(e) => Err(e),
            Ok(ie) => match description_verdict(
                if items@.len() > 2 {
                    Some(items@[2])
                } else {
                    None
                },
            ) {
                Err(e) => Err(e),
                Ok(de) => if items@.len() == 0 {
                    Err(ArgError::EmptyArray)
                } else {
                    match user_elem_verdict(items@[0], ArgError::InvalidUserElement) {
                        Err(e) => Err(e),
                        Ok(u) => Ok((u, ie, de)),
                    }
                },
            },
        },
        RpcArgs::Object { user, is_email, description } => match is_email_verdict(is_email) {
            Err(e) => Err(e),
            Ok(ie) => match description_verdict(description) {
                Err(e) => Err(e),
                Ok(de) => match user {
                    None => Err(ArgError::MissingUserField),
                    Some(uv) => match user_elem_verdict(uv, ArgError::InvalidUserField) {
                        Err(e) => Err(e),
                        Ok(u) => Ok((u, ie, de)),
                    },
                },
            },
        },
    }
}

/// The whole remove-user decode: in a list or an object only a string
/// names the user; a bare number is taken as its text.
pub open spec fn user_del_verdict(args: RpcArgs) -> Result<Seq<char>, ArgError> {
    match args {
        RpcArgs::One(RpcArg::Str(s)) => Ok(s@),
        RpcArgs::One(RpcArg::Num(n)) => Ok(n@),
        RpcArgs::One(_) => Err(ArgError::InvalidInputType),
        RpcArgs::Other => Err(ArgError::InvalidInputType),
        RpcArgs::List(items) => if items@.len() == 0 {
            Err(ArgError::EmptyArray)
        } else {
            match items@[0] {
                RpcArg::Str(s) => Ok(s@),
                _ => Err(ArgError::NotAString),
            }
        },
        RpcArgs::Object { user, .. } => match user {
            None => Err(ArgError::MissingUserElement),
            Some(RpcArg::Str(s)) => Ok(s@),
            Some(_) => Err(ArgError::NotAString),
        },
    }
}

fn decode_is_email(v: Option<&RpcArg>) -> (r: Result<Option<bool>, ArgError>)
    ensures
        r == is_email_verdict(
            match v {
                Some(a) => Some(*a),
                None => None,
            },
        ),
{
    match v {
        None => Ok(None),
        Some(RpcArg::Bool(b)) => Ok(Some(*b)),
        Some(RpcArg::Str(s)) => match crate::text::parse_bool(s) {
            Some(b) => Ok(Some(b)),
            None => Err(ArgError::InvalidIsEmailValue),
        },
        Some(_) => Err(ArgError::InvalidIsEmail),
    }
}

fn decode_description(v: Option<&RpcArg>) -> (r: Result<Option<String>, ArgError>)
    ensures
        match (r, description_verdict(
            match v {
                Some(a) => Some(*a),
                None => None,
            },
        )) {
            (Ok(Some(d)), Ok(Some(sd))) => d@ == sd,
            (Ok(None), Ok(None)) => true,
            (Err(e), Err(se)) => e == se,
            _ => false,
        },
{
    match v {
        None => Ok(None),
        Some(RpcArg::Str(s)) => Ok(Some(s.clone())),
        Some(RpcArg::Num(n)) => Ok(Some(n.clone())),
        Some(_) => Err(ArgError::InvalidDescription),
    }
}

fn decode_user_elem(v: &RpcArg, e: ArgError) -> (r: Result<String, ArgError>)
    ensures
        match (r, user_elem_verdict(*v, e)) {
            (Ok(u), Ok(su)) => u@ == su,
            (Err(re), Err(se)) => re == se,
            _ => false,
        },
{
    match v {
        RpcArg::Str(s) => Ok(s.clone()),
        RpcArg::Num(n) => Ok(n.clone()),
        _ => Err(e),
    }
}

/// Decodes add-user arguments into the username and its metadata.
pub fn parse_user_add_args(args: &RpcArgs) -> (r: Result<(String, UserMetadata), ArgError>)
    ensures
        match (r, user_add_verdict(*args)) {
            (Ok((u, m)), Ok((su, sie, sde))) => u@ == su && m.is_email == sie && (match (
                m.description,
                sde,
            ) {
                (Some(d), Some(sd)) => d@ == sd,
                (None, None) => true,
                _ => false,
            }),
            (Err(e), Err(se)) => e == se,
            _ => false,
        },
{
    match args {
        RpcArgs::One(RpcArg::Str(s)) => Ok(
            (s.clone(), UserMetadata { is_email: None, description: None }),
        ),
        RpcArgs::One(RpcArg::Num(n)) => Ok(
            (n.clone(), UserMetadata { is_email: None, description: None }),
        ),
        RpcArgs::One(_) => Err(ArgError::InvalidInputType),
        RpcArgs::Other => Err(ArgError::InvalidInputType),
        RpcArgs::List(items) => {
            let is_email = match decode_is_email(
                if items.len() > 1 {
                    Some(&items[1])
                } else {
                    None
                },
            ) {
                Ok(ie) => ie,
                Err(e) => {
                    return Err(e);
                },
            };
            let description = match decode_description(
                if items.len() > 2 {
                    Some(&items[2])
                } else {
                    None
                },
            ) {
                Ok(de) => de,
                Err(e) => {
                    return Err(e);
                },
            };
            if items.len() == 0 {
                return Err(ArgError::EmptyArray);
            }
            let user = match decode_user_elem(&items[0], ArgError::InvalidUserElement) {
                Ok(u) => u,
                Err(e) => {
                    return Err(e);
                },
            };
            Ok((user, UserMetadata { is_email, description }))
        },
        RpcArgs::Object { user, is_email, description } => {
            let ie = match decode_is_email(is_email.as_ref()) {
                Ok(ie) => ie,
                Err(e) => {
                    return Err(e);
                },
            };
            let de = match decode_description(description.as_ref()) {
                Ok(de) => de,
                Err(e) => {
                    return Err(e);
                },
            };
            let uv = match user {
                Some(uv) => uv,
                None => {
                    return Err(ArgError::MissingUserField);
                },
            };
            let u = match decode_user_elem(uv, ArgError::InvalidUserField) {
                Ok(u) => u,
                Err(e) => {
                    return Err(e);
                },
            };
            Ok((u, UserMetadata { is_email: ie, description: de }))
        },
    }
}

/// Decodes remove-user arguments into the username.
pub fn parse_user_del_args(args: &RpcArgs) -> (r: Result<String, ArgError>)
    ensures
        match (r, user_del_verdict(*args)) {
            (Ok(u), Ok(su)) => u@ == su,
            (Err(e), Err(se)) => e == se,
            _ => false,
        },
{
    match args {
        RpcArgs::One(RpcArg::Str(s)) => Ok(s.clone()),
        RpcArgs::One(RpcArg::Num(n)) => Ok(n.clone()),
        RpcArgs::One(_) => Err(ArgError::InvalidInputType),
        RpcArgs::Other => Err(ArgError::InvalidInputType),
        RpcArgs::List(items) => {
            if items.len() == 0 {
                return Err(ArgError::EmptyArray);
            }
            match &items[0] {
                RpcArg::Str(s) => Ok(s.clone()),
                _ => Err(ArgError::NotAString),
            }
        },
        RpcArgs::Object { user, .. } => match user {
            None => Err(ArgError::MissingUserElement),
            Some(RpcArg::Str(s)) => Ok(s.clone()),
            Some(_) => Err(ArgError::NotAString),
        },
    }
}

} // verus!
