use vstd::prelude::*;

verus! {

/// The text that stands for the request id of a request that has none, or
/// one that is no text.
pub const NO_REQUEST_ID: &'static str = "N/A";

/// Makes the span that the events of one request are logged under.
#[derive(Debug, Default, Clone, Copy, PartialEq, Eq, Structural)]
pub struct CustomMakeSpan {}

impl CustomMakeSpan {
    pub fn new() -> (r: Self)
        ensures
            r == (CustomMakeSpan {  }),
    {
        Self {  }
    }

    /// The request id that the span of a request carries: the value of the
    /// request's id header where it has one that is text, and `N/A` else.
    pub fn span_request_id<'a>(&self, header: Option<&'a str>) -> (r: &'a str)
        ensures
            match header {
                Some(id) => r == id,
                None => r == NO_REQUEST_ID,
            },
    {
        match header {
            Some(id) => id,
            None => NO_REQUEST_ID,
        }
    }
}

/// What is logged when a request comes in.
#[derive(Debug, Clone, Copy, PartialEq, Eq, Structural)]
pub enum RequestLog {
    /// Nothing.
    Nothing,
    /// The method and the URI.
    Line,
    /// The method, the URI and the headers.
    LineWithHeaders,
}

/// Logs the requests as they come in.
#[derive(Debug, Clone, Copy, PartialEq, Eq, Structural)]
pub struct CustomOnRequest {
    pub enabled: bool,
    pub log_headers: bool,
}

impl Default for CustomOnRequest {
    fn default() -> (r: Self)
        ensures
            r == (CustomOnRequest { enabled: true, log_headers: false }),
    {
        Self { enabled: true, log_headers: false }
    }
}

impl CustomOnRequest {
    /// Logs every request, without its headers.
    pub fn new() -> (r: Self)
        ensures
            r == (CustomOnRequest { enabled: true, log_headers: false }),
    {
        Self { enabled: true, log_headers: false }
    }

    /// Whether requests are logged at all.
    pub fn enabled(self, enabled: bool) -> (r: Self)
        ensures
            r == (CustomOnRequest { enabled: enabled, log_headers: self.log_headers }),
    {
        Self { enabled, log_headers: self.log_headers }
    }

    /// Whether the headers of a request are logged with it.
    pub fn log_headers(self, log_headers: bool) -> (r: Self)
        ensures
            r == (CustomOnRequest { enabled: self.enabled, log_headers: log_headers }),
    {
        Self { enabled: self.enabled, log_headers }
    }

    /// What is logged of a request that comes in.
    pub open spec fn log_spec(self) -> RequestLog {
        if !self.enabled {
            RequestLog::Nothing
        } else if self.log_headers {
            RequestLog::LineWithHeaders
        } else {
            RequestLog::Line
        }
    }

    /// What is logged of a request that comes in: nothing where logging is
    /// off, else its method and URI, and its headers where they are asked
    /// for.
    pub fn on_request(&self) -> (r: RequestLog)
        ensures
            r == self.log_spec(),
    {
        if !self.enabled {
            RequestLog::Nothing
        } else if self.log_headers {
            RequestLog::LineWithHeaders
        } else {
            RequestLog::Line
        }
    }
}

} // verus!
