//! Errors of the AT-SPI operations, with their messages.

use vstd::prelude::*;
use crate::ids::{decimal_text, push_decimal};
use crate::text_search::{contains_text, lemma_contains_middle};

verus! {

/// Errors that can occur during AT-SPI operations. Errors coming from the
/// AT-SPI and D-Bus libraries are carried by their text.
#[derive(Debug)]
pub enum AtspiError {
    /// Failed to connect to AT-SPI.
    Connection(String),
    /// Application not found.
    AppNotFound { app_name: String },
    /// Element not found.
    ElementNotFound { id: u64, app_name: String },
    /// AT-SPI interface not available on the element.
    InterfaceNotAvailable { interface: String, id: u64 },
    /// D-Bus communication error.
    DBus(String),
    /// AT-SPI library error.
    Atspi(String),
}

/// The message of an error.
pub open spec fn atspi_error_text(e: AtspiError) -> Seq<char> {
    match e {
        AtspiError::Connection(s) => "Failed to connect to AT-SPI: "@ + s@,
        AtspiError::AppNotFound { app_name } => "Application '"@ + app_name@
            + "' not found via AT-SPI"@,
        AtspiError::ElementNotFound { id, app_name } => "Element with id "@ + decimal_text(
            id as nat,
        ) + " not found in application '"@ + app_name@ + "'"@,
        AtspiError::InterfaceNotAvailable { interface, id } => "AT-SPI "@ + interface@
            + " interface not available on element "@ + decimal_text(id as nat),
        AtspiError::DBus(s) => "D-Bus error: "@ + s@,
        AtspiError::Atspi(s) => "AT-SPI error: "@ + s@,
    }
}

impl AtspiError {
    /// The error for an element that is not in the application.
    pub fn element_not_found(id: u64, app_name: &str) -> (e: AtspiError)
        ensures
            e matches AtspiError::ElementNotFound { id: i, app_name: a } && i == id && a@
                == app_name@,
    {
        AtspiError::ElementNotFound { id, app_name: String::from_str(app_name) }
    }

    /// The error for an AT-SPI interface the element lacks.
    pub fn interface_not_available(interface: &str, id: u64) -> (e: AtspiError)
        ensures
            e matches AtspiError::InterfaceNotAvailable { interface: n, id: i } && n@
                == interface@ && i == id,
    {
        AtspiError::InterfaceNotAvailable { interface: String::from_str(interface), id }
    }

    /// The message of the error.
    pub fn to_string(&self) -> (m: String)
        ensures
            m@ == atspi_error_text(*self),
    {
        match self {
            AtspiError::Connection(s) => {
                let mut m = String::from_str("Failed to connect to AT-SPI: ");
                m.append(s.as_str());
                m
            },
            AtspiError::AppNotFound { app_name } => {
                let mut m = String::from_str("Application '");
                m.append(app_name.as_str());
                m.append("' not found via AT-SPI");
                m
            },
            AtspiError::ElementNotFound { id, app_name } => {
                let mut m = String::from_str("Element with id ");
                push_decimal(&mut m, *id);
                m.append(" not found in application '");
                m.append(app_name.as_str());
                m.append("'");
                m
            },
            AtspiError::InterfaceNotAvailable { interface, id } => {
                let mut m = String::from_str("AT-SPI ");
                m.append(interface.as_str());
                m.append(" interface not available on element ");
                push_decimal(&mut m, *id);
                m
            },
            AtspiError::DBus(s) => {
                let mut m = String::from_str("D-Bus error: ");
                m.append(s.as_str());
                m
            },
            AtspiError::Atspi(s) => {
                let mut m = String::from_str("AT-SPI error: ");
                m.append(s.as_str());
                m
            },
        }
    }
}

/// The message of an error names what it is about: the element's
/// identifier and the application for a missing element, the interface and
/// the element's identifier for a missing interface, the application for a
/// missing application.
pub proof fn lemma_error_mentions_subject(e: AtspiError)
    ensures
        e matches AtspiError::ElementNotFound { id, app_name } ==> contains_text(
            atspi_error_text(e),
            decimal_text(id as nat),
        ) && contains_text(atspi_error_text(e), app_name@),
        e matches AtspiError::InterfaceNotAvailable { interface, id } ==> contains_text(
            atspi_error_text(e),
            interface@,
        ) && contains_text(atspi_error_text(e), decimal_text(id as nat)),
        e matches AtspiError::AppNotFound { app_name } ==> contains_text(
            atspi_error_text(e),
            app_name@,
        ),
{
    match e {
        AtspiError::ElementNotFound { id, app_name } => {
            let a = "Element with id "@;
            let d = decimal_text(id as nat);
            let b = " not found in application '"@;
            let n = app_name@;
            let c = "'"@;
            assert(atspi_error_text(e) == a + d + b + n + c);
            lemma_contains_middle(a, d, b + n + c);
            assert(a + d + (b + n + c) =~= a + d + b + n + c);
            lemma_contains_middle(a + d + b, n, c);
        },
        AtspiError::InterfaceNotAvailable { interface, id } => {
            let a = "AT-SPI "@;
            let n = interface@;
            let b = " interface not available on element "@;
            let d = decimal_text(id as nat);
            assert(atspi_error_text(e) == a + n + b + d);
            lemma_contains_middle(a, n, b + d);
            assert(a + n + (b + d) =~= a + n + b + d);
            lemma_contains_middle(a + n + b, d, Seq::<char>::empty());
            assert(a + n + b + d + Seq::<char>::empty() =~= a + n + b + d);
        },
        AtspiError::AppNotFound { app_name } => {
            lemma_contains_middle("Application '"@, app_name@, "' not found via AT-SPI"@);
        },
        _ => {},
    }
}

} // verus!
