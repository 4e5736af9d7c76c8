//! Errors of the D-Bus side: a D-Bus call that failed, or data that could
//! not be read.
use crate::text::{eq_literal, opt_str_view, string_from_chars, to_chars};
use vstd::prelude::*;

verus! {

/// Errors of the KDE Connect D-Bus interface.
#[derive(Debug)]
pub enum Error {
    /// KDE Connect wasn't found running.
    KdeConnectNotStarted,
    /// D-Bus data that could not be read, with what was wrong.
    DBusParsingFail(String),
    /// A D-Bus call failed.
    DBusError(DBusError),
    Unknown,
}

/// A failed D-Bus call.
#[derive(Debug)]
pub struct DBusError {
    pub kind: DBusErrorKind,
    pub message: Option<String>,
}

/// The kind of a failed D-Bus call, by its error name.
#[derive(Debug)]
pub enum DBusErrorKind {
    /// `org.freedesktop.DBus.Error.UnknownObject`: the object is not there,
    /// as when KDE Connect isn't running.
    UnknownObject,
    /// Any other error name, if there was one.
    Unknown(Option<String>),
}

/// [`DBusErrorKind`] with texts as character sequences.
pub enum DBusErrorKindView {
    UnknownObject,
    Unknown(Option<Seq<char>>),
}

/// [`Error`] with texts as character sequences.
pub enum ErrorView {
    KdeConnectNotStarted,
    DBusParsingFail(Seq<char>),
    DBusError(DBusErrorKindView, Option<Seq<char>>),
    Unknown,
}

pub open spec fn opt_string_view(s: Option<String>) -> Option<Seq<char>> {
    match s {
        Some(x) => Some(x@),
        None => None,
    }
}

impl View for DBusErrorKind {
    type V = DBusErrorKindView;

    open spec fn view(&self) -> DBusErrorKindView {
        match self {
            DBusErrorKind::UnknownObject => DBusErrorKindView::UnknownObject,
            DBusErrorKind::Unknown(n) => DBusErrorKindView::Unknown(opt_string_view(*n)),
        }
    }
}

impl View for Error {
    type V = ErrorView;

    open spec fn view(&self) -> ErrorView {
        match self {
            Error::KdeConnectNotStarted => ErrorView::KdeConnectNotStarted,
            Error::DBusParsingFail(s) => ErrorView::DBusParsingFail(s@),
            Error::DBusError(e) => ErrorView::DBusError(e.kind@, opt_string_view(e.message)),
            Error::Unknown => ErrorView::Unknown,
        }
    }
}

/// The D-Bus error name of a missing object.
pub open spec fn unknown_object_name() -> Seq<char> {
    "org.freedesktop.DBus.Error.UnknownObject"@
}

fn copy_str(s: &str) -> (r: String)
    ensures
        r@ == s@,
{
    let c = to_chars(s);
    let r = string_from_chars(&c, 0, c.len());
    assert(c@.subrange(0, c@.len() as int) =~= c@);
    r
}

impl DBusError {
    /// The error of a failed call from its D-Bus error name and message:
    /// the name of a missing object makes [`DBusErrorKind::UnknownObject`].
    pub fn from_parts(name: Option<&str>, message: Option<&str>) -> (r: DBusError)
        ensures
            opt_string_view(r.message) == opt_str_view(message),
            r.kind@ == match name {
                Some(n) => if n@ == unknown_object_name() {
                    DBusErrorKindView::UnknownObject
                } else {
                    DBusErrorKindView::Unknown(Some(n@))
                },
                None => DBusErrorKindView::Unknown(None),
            },
    {
        let message = match message {
            Some(m) => Some(copy_str(m)),
            None => None,
        };
        let kind = match name {
            Some(n) => {
                let chars = to_chars(n);
                if eq_literal(&chars, "org.freedesktop.DBus.Error.UnknownObject") {
                    DBusErrorKind::UnknownObject
                } else {
                    DBusErrorKind::Unknown(Some(copy_str(n)))
                }
            },
            None => DBusErrorKind::Unknown(None),
        };
        DBusError { kind, message }
    }
}

impl Error {
    /// Whether this error means that the KDE Connect daemon could not be
    /// reached: a call answered with a missing object. Callers then behave as
    /// if no device were found.
    pub fn is_unknown_object(&self) -> (r: bool)
        ensures
            r == (self@ matches ErrorView::DBusError(DBusErrorKindView::UnknownObject, _)),
    {
        match self {
            Error::DBusError(e) => match e.kind {
                DBusErrorKind::UnknownObject => true,
                DBusErrorKind::Unknown(_) => false,
            },
            _ => false,
        }
    }
}

} // verus!
