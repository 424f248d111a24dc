//! The error type that configuration builders return, and the smaller error
//! types of the GPIO and child-process helpers.
use vstd::prelude::*;
use vstd::string::*;

verus! {

/// Common error type when using configuration.
pub enum IocBuildError {
    Message(String),
    Messages(Vec<String>),
}

/// The texts of a list of strings.
pub open spec fn texts(v: Seq<String>) -> Seq<Seq<char>> {
    v.map_values(|s: String| s@)
}

/// The messages that an error carries, in order.
pub open spec fn error_messages(e: IocBuildError) -> Seq<Seq<char>> {
    match e {
        IocBuildError::Message(m) => seq![m@],
        IocBuildError::Messages(v) => texts(v@),
    }
}

/// The messages of a list of errors, one error after the other.
pub open spec fn all_messages(errs: Seq<IocBuildError>) -> Seq<Seq<char>>
    decreases errs.len(),
{
    if errs.len() == 0 {
        Seq::empty()
    } else {
        all_messages(errs.drop_last()) + error_messages(errs.last())
    }
}

/// `parts` joined with `sep` between consecutive parts.
pub open spec fn joined(parts: Seq<Seq<char>>, sep: Seq<char>) -> Seq<char>
    decreases parts.len(),
{
    if parts.len() == 0 {
        Seq::empty()
    } else if parts.len() == 1 {
        parts[0]
    } else {
        joined(parts.drop_last(), sep) + sep + parts.last()
    }
}

/// The content of an error: its one message, or its list of messages.
pub enum ErrorView {
    Message(Seq<char>),
    Messages(Seq<Seq<char>>),
}

pub open spec fn error_view(e: IocBuildError) -> ErrorView {
    match e {
        IocBuildError::Message(m) => ErrorView::Message(m@),
        IocBuildError::Messages(v) => ErrorView::Messages(texts(v@)),
    }
}

/// The text that describes an error (what the `Debug` form prints).
pub open spec fn error_description(e: IocBuildError) -> Seq<char> {
    match e {
        IocBuildError::Message(m) => "IocBuildError: "@ + m@,
        IocBuildError::Messages(v) => "IocBuildError (multiple): \n"@ + joined(texts(v@), "\n"@),
    }
}

/// A copy of a list of strings.
pub fn copy_strings(v: &[String]) -> (r: Vec<String>)
    ensures
        texts(r@) == texts(v@),
{
    let mut r: Vec<String> = Vec::with_capacity(v.len());
    let mut i: usize = 0;
    while i < v.len()
        invariant
            i <= v.len(),
            texts(r@) == texts(v@.take(i as int)),
        decreases v.len() - i,
    {
        let ghost before = r@;
        r.push(v[i].clone());
        proof {
            assert(v@.take(i + 1) == v@.take(i as int).push(v@[i as int]));
            assert(texts(r@) =~= texts(before).push(v@[i as int]@));
            assert(texts(v@.take(i + 1)) =~= texts(v@.take(i as int)).push(v@[i as int]@));
        }
        i = i + 1;
    }
    proof {
        assert(v@.take(v.len() as int) == v@);
    }
    r
}

impl IocBuildError {
    pub fn from_string(msg: String) -> (r: Self)
        ensures
            r == IocBuildError::Message(msg),
    {
        IocBuildError::Message(msg)
    }

    /// Gathers the messages of several errors into one error, keeping their order.
    pub fn from_errs(errs: Vec<IocBuildError>) -> (r: Self)
        ensures
            r is Messages,
            error_messages(r) == all_messages(errs@),
    {
        let mut messages: Vec<String> = Vec::with_capacity(errs.len());
        let mut i: usize = 0;
        while i < errs.len()
            invariant
                i <= errs.len(),
                texts(messages@) == all_messages(errs@.take(i as int)),
            decreases errs.len() - i,
        {
            let ghost before = messages@;
            match &errs[i] {
                IocBuildError::Message(msg) => {
                    messages.push(msg.clone());
                    proof {
                        assert(texts(messages@) == texts(before) + seq![msg@]);
                    }
                },
                IocBuildError::Messages(msgs) => {
                    let mut j: usize = 0;
                    while j < msgs.len()
                        invariant
                            j <= msgs.len(),
                            messages@.len() == before.len() + j,
                            texts(messages@) == texts(before) + texts(msgs@.take(j as int)),
                        decreases msgs.len() - j,
                    {
                        let ghost mid = messages@;
                        messages.push(msgs[j].clone());
                        proof {
                            assert(msgs@.take(j + 1) == msgs@.take(j as int).push(msgs@[j as int]));
                            assert(texts(messages@) =~= texts(mid).push(msgs@[j as int]@));
                            assert(texts(msgs@.take(j + 1)) =~= texts(msgs@.take(j as int)).push(msgs@[j as int]@));
                            assert(texts(messages@) == texts(before) + texts(msgs@.take(j + 1)));
                        }
                        j = j + 1;
                    }
                    proof {
                        assert(msgs@.take(msgs.len() as int) == msgs@);
                    }
                },
            }
            proof {
                let t = errs@.take(i + 1);
                assert(t.drop_last() == errs@.take(i as int));
                assert(t.last() == errs@[i as int]);
            }
            i = i + 1;
        }
        proof {
            assert(errs@.take(errs.len() as int) == errs@);
        }
        IocBuildError::Messages(messages)
    }

    pub fn message(msg: &str) -> (r: Self)
        ensures
            r is Message,
            error_messages(r) == seq![msg@],
            error_view(r) == ErrorView::Message(msg@),
    {
        IocBuildError::Message(String::from_str(msg))
    }

    pub fn messages(msgs: &[String]) -> (r: Self)
        ensures
            r is Messages,
            error_messages(r) == texts(msgs@),
            error_view(r) == ErrorView::Messages(texts(msgs@)),
    {
        IocBuildError::Messages(copy_strings(msgs))
    }

    /// The text that the `Debug` form of this error prints.
    pub fn describe(&self) -> (r: String)
        ensures
            r@ == error_description(*self),
    {
        match self {
            IocBuildError::Message(m) => {
                let mut s = String::from_str("IocBuildError: ");
                s.append(m.as_str());
                s
            },
            IocBuildError::Messages(v) => {
                let mut s = String::from_str("IocBuildError (multiple): \n");
                let mut body = String::new();
                let mut i: usize = 0;
                while i < v.len()
                    invariant
                        i <= v.len(),
                        body@ == joined(texts(v@.take(i as int)), "\n"@),
                    decreases v.len() - i,
                {
                    proof {
                        let t = texts(v@.take(i + 1));
                        assert(t.drop_last() == texts(v@.take(i as int)));
                        assert(t.last() == v@[i as int]@);
                    }
                    if i > 0 {
                        body.append("\n");
                    }
                    body.append(v[i].as_str());
                    i = i + 1;
                }
                proof {
                    assert(v@.take(v.len() as int) == v@);
                }
                s.append(body.as_str());
                s
            },
        }
    }
}

/// Error raised while setting up Raspberry Pi GPIO pins.
pub struct GpioError {
    pub message: String,
}

impl GpioError {
    /// Builds the error from a message.
    pub fn from_message(s: &str) -> (r: Self)
        ensures
            r.message@ == s@,
    {
        GpioError { message: String::from_str(s) }
    }

    /// The text that the `Debug` form of this error prints: the bare message.
    pub fn describe(&self) -> (r: String)
        ensures
            r@ == self.message@,
    {
        self.message.clone()
    }

    /// The configuration error that carries this error's message.
    pub fn into_build_error(self) -> (r: IocBuildError)
        ensures
            r == IocBuildError::Message(self.message),
    {
        IocBuildError::from_string(self.message)
    }
}

/// Error raised when a child process cannot be started; hands back the value
/// that would have gone to the stream handler.
pub struct ChildProcessError<X> {
    pub message: String,
    pub x: X,
}

impl<X> ChildProcessError<X> {
    pub fn new(message: String, x: X) -> (r: Self)
        ensures
            r.message == message,
            r.x == x,
    {
        Self { message, x }
    }
}

} // verus!
