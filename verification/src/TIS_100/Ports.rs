//! `Ports` are the IO channels for a `Node`.
//!
//! A `Port` is a pair of FIFO queues: `input` is consumed front-to-back by
//! reads, `output` is append-only and grows with writes. Every operation
//! returns a new `Port` value; a `Port` is never mutated in place.

use vstd::prelude::*;

verus! {

/// The mathematical view of a `Port`: its two queues as sequences.
#[verifier::ext_equal]
pub ghost struct PortView {
    pub input: Seq<i32>,
    pub output: Seq<i32>,
}

/// A `Port` can be read from and written to.
#[derive(Debug, PartialEq, Eq)]
pub struct Port {
    /// Values waiting to be read, front first.
    pub input: Vec<i32>,
    /// Values written so far, in the order they were written.
    pub output: Vec<i32>,
}

impl View for Port {
    type V = PortView;

    open spec fn view(&self) -> PortView {
        PortView { input: self.input@, output: self.output@ }
    }
}

/// The result of reading from a `Port`.
#[derive(Debug)]
pub enum PortReadResult {
    /// Success: the port with the head value removed, and that value.
    Success(Port, i32),
    /// Failure: no value was available.
    Failure,
}

/// Copies the elements of `values` from position `from` to the end.
fn tail_of(values: &Vec<i32>, from: usize) -> (result: Vec<i32>)
    requires
        from <= values.len(),
    ensures
        result@ == values@.subrange(from as int, values@.len() as int),
{
    let mut result: Vec<i32> = Vec::new();
    let mut index: usize = from;
    while index < values.len()
        invariant
            from <= index <= values.len(),
            result@ == values@.subrange(from as int, index as int),
        decreases values.len() - index,
    {
        result.push(values[index]);
        index = index + 1;
        proof {
            assert(result@ =~= values@.subrange(from as int, index as int));
        }
    }
    proof {
        assert(result@ =~= values@.subrange(from as int, values@.len() as int));
    }
    result
}

impl Port {
    /// Create a port with a number of readable values and an empty output.
    pub fn new(input: Vec<i32>) -> (port: Port)
        ensures
            port@.input == input@,
            port@.output == Seq::<i32>::empty(),
    {
        Port { input, output: Vec::new() }
    }

    /// Create a port with prescribed input and output queues.
    pub fn with(input: Vec<i32>, output: Vec<i32>) -> (port: Port)
        ensures
            port@.input == input@,
            port@.output == output@,
    {
        Port { input, output }
    }

    /// True iff a value is available to be read.
    pub fn available(&self) -> (result: bool)
        ensures
            result == (self@.input.len() > 0),
    {
        self.input.len() > 0
    }

    /// Read from this `Port`. Returns `PortReadResult::Success` with the head
    /// of the input queue removed and the head value when a value is
    /// available, otherwise `PortReadResult::Failure`.
    pub fn read(&self) -> (result: PortReadResult)
        ensures
            match result {
                PortReadResult::Success(port, value) => {
                    &&& self@.input.len() > 0
                    &&& port@.input == self@.input.subrange(1, self@.input.len() as int)
                    &&& port@.output == self@.output
                    &&& value == self@.input[0]
                },
                PortReadResult::Failure => self@.input.len() == 0,
            },
    {
        if self.input.len() > 0 {
            let rest = tail_of(&self.input, 1);
            let value = self.input[0];
            PortReadResult::Success(Port::with(rest, tail_of(&self.output, 0)), value)
        } else {
            PortReadResult::Failure
        }
    }

    /// Write to this `Port`. Always succeeds and returns the port with the
    /// value appended to its output queue; the input queue and every other
    /// port are left untouched.
    pub fn write(&self, value: i32) -> (port: Port)
        ensures
            port@.input == self@.input,
            port@.output == self@.output.push(value),
    {
        let input = tail_of(&self.input, 0);
        let mut output = tail_of(&self.output, 0);
        output.push(value);
        proof {
            assert(input@ =~= self@.input);
            assert(output@ =~= self@.output.push(value));
        }
        Port::with(input, output)
    }
}

impl Clone for Port {
    fn clone(&self) -> (result: Port)
        ensures
            result@ == self@,
    {
        let port = Port { input: tail_of(&self.input, 0), output: tail_of(&self.output, 0) };
        proof {
            assert(port@.input =~= self@.input);
            assert(port@.output =~= self@.output);
            assert(port@ =~= self@);
        }
        port
    }
}

} // verus!
