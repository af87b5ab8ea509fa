use vstd::prelude::*;
use vstd::string::*;

verus! {

/// How a run ended.
#[derive(Debug, PartialEq, Eq, Structural)]
pub enum ResultCode {
    OK,
    TargetNotExist,
    UnknownError,
}

/// The outcome of a run: how it ended and a message for the user.
#[derive(Debug)]
pub struct ExecuteResult {
    pub result_code: ResultCode,
    pub message: String,
}

impl ExecuteResult {
    /// A run that succeeded, with an empty message.
    pub fn ok() -> (r: ExecuteResult)
        ensures
            r.result_code == ResultCode::OK,
            r.message@ == Seq::<char>::empty(),
    {
        ExecuteResult { result_code: ResultCode::OK, message: String::new() }
    }

    /// A run that failed for a reason not otherwise classified.
    pub fn unknown(message: &str) -> (r: ExecuteResult)
        ensures
            r.result_code == ResultCode::UnknownError,
            r.message@ == message@,
    {
        ExecuteResult { result_code: ResultCode::UnknownError, message: message.to_string() }
    }

    /// A run that found no repository at its target.
    pub fn target_not_exist(message: &str) -> (r: ExecuteResult)
        ensures
            r.result_code == ResultCode::TargetNotExist,
            r.message@ == message@,
    {
        ExecuteResult { result_code: ResultCode::TargetNotExist, message: message.to_string() }
    }
}

/// Something that can be run to completion and reports how it ended.
pub trait Application {
    fn execute(&self) -> ExecuteResult;
}

/// Collects the message of one log event.
#[derive(Debug)]
pub struct LogVisitor {
    pub message: String,
}

impl LogVisitor {
    /// A visitor that has seen no message yet.
    pub fn new() -> (r: LogVisitor)
        ensures
            r.message@ == Seq::<char>::empty(),
    {
        LogVisitor { message: String::new() }
    }

    /// Records the value of an event's field: the field called `message`
    /// becomes the message, other fields are ignored.
    pub fn record_field(&mut self, field: &str, value: String)
        ensures
            field@ == "message"@ ==> final(self).message@ == value@,
            field@ != "message"@ ==> final(self).message@ == old(self).message@,
    {
        proof {
            reveal_strlit("message");
        }
        if field.to_string() == String::from_str("message") {
            self.message = value;
        }
    }

    /// Shows the collected log lines; there is no display to show them on,
    /// so nothing happens.
    pub fn show_all() {
    }
}

/// The line kept for a log event: `[<level>] <message>`.
pub open spec fn log_line(level: Seq<char>, message: Seq<char>) -> Seq<char> {
    "["@ + level + "] "@ + message
}

/// Keeps every log line in memory, in the order the events came.
#[derive(Debug)]
pub struct MemoryLayer {
    pub logs: Vec<String>,
}

impl MemoryLayer {
    /// A layer that holds no line.
    pub fn new() -> (r: MemoryLayer)
        ensures
            r.logs@.len() == 0,
    {
        MemoryLayer { logs: Vec::new() }
    }

    /// The lines kept so far, in order.
    pub fn get_logs(&self) -> (r: Vec<String>)
        ensures
            r@ == self.logs@,
    {
        let mut out: Vec<String> = Vec::new();
        let n = self.logs.len();
        let mut i: usize = 0;
        while i < n
            invariant
                n == self.logs@.len(),
                i <= n,
                out@ == self.logs@.take(i as int),
            decreases n - i,
        {
            out.push(self.logs[i].clone());
            proof {
                assert(out@ =~= self.logs@.take(i as int + 1));
            }
            i = i + 1;
        }
        proof {
            assert(self.logs@.take(n as int) =~= self.logs@);
        }
        out
    }

    /// Keeps the line of an event of level `level` with message `message`.
    pub fn on_event(&mut self, level: &str, message: &str)
        ensures
            final(self).logs@.len() == old(self).logs@.len() + 1,
            forall|i: int| 0 <= i < old(self).logs@.len() ==> final(self).logs@[i] == old(self).logs@[i],
            final(self).logs@.last()@ == log_line(level@, message@),
    {
        let mut line = String::from_str("[");
        line.append(level);
        line.append("] ");
        line.append(message);
        proof {
            reveal_strlit("[");
            reveal_strlit("] ");
        }
        self.logs.push(line);
    }
}

} // verus!
