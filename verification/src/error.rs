//! Application errors and their transport form.
use vstd::prelude::*;

verus! {

#[derive(Debug, PartialEq, Eq)]
pub enum AppError {
    InvalidArgument(String),
    NotFound(String),
    IoError(String),
    InternalError,
}

/// The view of an [`AppError`].
pub enum ErrorView {
    InvalidArgument(Seq<char>),
    NotFound(Seq<char>),
    IoError(Seq<char>),
    InternalError,
}

impl DeepView for AppError {
    type V = ErrorView;

    open spec fn deep_view(&self) -> ErrorView {
        match self {
            AppError::InvalidArgument(m) => ErrorView::InvalidArgument(m@),
            AppError::NotFound(m) => ErrorView::NotFound(m@),
            AppError::IoError(m) => ErrorView::IoError(m@),
            AppError::InternalError => ErrorView::InternalError,
        }
    }
}

impl View for AppError {
    type V = ErrorView;

    open spec fn view(&self) -> ErrorView {
        self.deep_view()
    }
}

pub type AppResult<T> = Result<T, AppError>;

/// The error as handed to the user interface: a code and a message.
#[derive(Debug)]
pub struct ErrorDto {
    pub code: String,
    pub message: String,
}

/// The code and message that an error is reported with.
pub open spec fn dto_of(e: ErrorView) -> (Seq<char>, Seq<char>) {
    match e {
        ErrorView::InvalidArgument(m) => ("INVALID_ARGUMENT"@, m),
        ErrorView::NotFound(m) => ("NOT_FOUND"@, m),
        ErrorView::IoError(m) => ("IO_ERROR"@, m),
        ErrorView::InternalError => ("INTERNAL_ERROR"@, "An internal error occurred"@),
    }
}

impl ErrorDto {
    /// The transport form of an error.
    pub fn from_error(err: AppError) -> (r: ErrorDto)
        ensures
            (r.code@, r.message@) == dto_of(err@),
    {
        match err {
            AppError::InvalidArgument(msg) => ErrorDto {
                code: String::from_str("INVALID_ARGUMENT"),
                message: msg,
            },
            AppError::NotFound(msg) => ErrorDto { code: String::from_str("NOT_FOUND"), message: msg },
            AppError::IoError(msg) => ErrorDto { code: String::from_str("IO_ERROR"), message: msg },
            AppError::InternalError => ErrorDto {
                code: String::from_str("INTERNAL_ERROR"),
                message: String::from_str("An internal error occurred"),
            },
        }
    }
}

/// `a + b`, as a new string.
pub fn concat2(a: &str, b: &str) -> (r: String)
    ensures
        r@ == a@ + b@,
{
    let mut r = String::from_str(a);
    r.append(b);
    r
}

/// `a + b + c`, as a new string.
pub fn concat3(a: &str, b: &str, c: &str) -> (r: String)
    ensures
        r@ == a@ + b@ + c@,
{
    let mut r = String::from_str(a);
    r.append(b);
    r.append(c);
    r
}

/// `a + b + c + d + e`, as a new string.
pub fn concat5(a: &str, b: &str, c: &str, d: &str, e: &str) -> (r: String)
    ensures
        r@ == a@ + b@ + c@ + d@ + e@,
{
    let mut r = String::from_str(a);
    r.append(b);
    r.append(c);
    r.append(d);
    r.append(e);
    r
}

/// An `InvalidArgument` error with the given message.
pub fn invalid_argument(msg: &str) -> (e: AppError)
    ensures
        e@ == ErrorView::InvalidArgument(msg@),
{
    AppError::InvalidArgument(String::from_str(msg))
}

} // verus!

verus! {

/// The text an error is displayed with.
pub open spec fn error_display(e: ErrorView) -> Seq<char> {
    match e {
        ErrorView::InvalidArgument(m) => "invalid argument: "@ + m,
        ErrorView::NotFound(m) => "not found: "@ + m,
        ErrorView::IoError(m) => "io error: "@ + m,
        ErrorView::InternalError => "internal error"@,
    }
}

impl AppError {
    /// The text the error is displayed with.
    pub fn display_text(&self) -> (r: String)
        ensures
            r@ == error_display(self@),
    {
        match self {
            AppError::InvalidArgument(m) => concat2("invalid argument: ", m.as_str()),
            AppError::NotFound(m) => concat2("not found: ", m.as_str()),
            AppError::IoError(m) => concat2("io error: ", m.as_str()),
            AppError::InternalError => String::from_str("internal error"),
        }
    }
}

} // verus!
