//! The settings of a run: where to search, where to write, how much to
//! say and how many workers to use.

use vstd::prelude::*;

verus! {

/// The settings of a run.
#[derive(Debug)]
pub struct Args {
    input_file: String,
    output_file: Option<String>,
    verbose: bool,
    threads: Option<usize>,
}

/// The text of an optional string.
pub open spec fn optional_text(text: Option<String>) -> Option<Seq<char>> {
    match text {
        Some(text) => Some(text@),
        None => None,
    }
}

/// The text of an optional string slice.
pub open spec fn optional_slice_text(text: Option<&str>) -> Option<Seq<char>> {
    match text {
        Some(text) => Some(text@),
        None => None,
    }
}

impl Args {
    /// The file or directory to be searched, as contracts see it.
    pub closed spec fn spec_input_file(&self) -> Seq<char> {
        self.input_file@
    }

    /// The file that takes the report, as contracts see it; nothing where
    /// the report goes to the standard output.
    pub closed spec fn spec_output_file(&self) -> Option<Seq<char>> {
        optional_text(self.output_file)
    }

    /// Whether to say what is being done, as contracts see it.
    pub closed spec fn spec_verbose(&self) -> bool {
        self.verbose
    }

    /// The number of workers that was asked for, as contracts see it.
    pub closed spec fn spec_threads(&self) -> Option<usize> {
        self.threads
    }

    /// Whether the number of workers that was asked for, if any, is one
    /// that a pool can have.
    pub open spec fn wf(&self) -> bool {
        self.threads() != Some(0usize)
    }

    /// The number of workers to use where the machine can run `available`
    /// at once: the number that was asked for, else `available`.
    pub open spec fn spec_worker_count(&self, available: usize) -> usize {
        match self.threads() {
            Some(threads) => threads,
            None => available,
        }
    }

    /// Creates settings from their four values. To ask for no worker at
    /// all is to ask for none in particular.
    pub fn from_values(
        input_file: String,
        output_file: Option<String>,
        verbose: bool,
        threads: Option<usize>,
    ) -> (args: Args)
        ensures
            args.wf(),
            args.spec_input_file() == input_file@,
            args.spec_output_file() == optional_text(output_file),
            args.verbose() == verbose,
            args.threads() == (if threads == Some(0usize) {
                None
            } else {
                threads
            }),
    {
        let threads = match threads {
            Some(0) => None,
            other => other,
        };
        Args { input_file, output_file, verbose, threads }
    }

    /// Retrieves the input file string.
    pub fn input_file(&self) -> (input_file: &str)
        ensures
            input_file@ == self.spec_input_file(),
    {
        self.input_file.as_str()
    }

    /// Retrieves the output file string.
    pub fn output_file(&self) -> (output_file: Option<&str>)
        ensures
            optional_slice_text(output_file) == self.spec_output_file(),
    {
        match &self.output_file {
            Some(path) => Some(path.as_str()),
            None => None,
        }
    }

    /// Retrieves whether to print verbosely or not.
    #[verifier::when_used_as_spec(spec_verbose)]
    pub fn verbose(&self) -> (verbose: bool)
        ensures
            verbose == self.spec_verbose(),
    {
        self.verbose
    }

    /// Retrieves the specified thread count.
    #[verifier::when_used_as_spec(spec_threads)]
    pub fn threads(&self) -> (threads: Option<usize>)
        ensures
            threads == self.spec_threads(),
    {
        self.threads
    }

    /// The number of workers to use where the machine can run `available`
    /// at once.
    #[verifier::when_used_as_spec(spec_worker_count)]
    pub fn worker_count(&self, available: usize) -> (count: usize)
        requires
            self.wf(),
            available > 0,
        ensures
            count == self.spec_worker_count(available),
            count > 0,
    {
        match self.threads {
            Some(threads) => threads,
            None => available,
        }
    }
}

} // verus!
