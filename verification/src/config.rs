use vstd::prelude::*;

verus! {

/// The default stack size of a coroutine, in bytes.
pub const DEFAULT_STACK_SIZE: usize = 6 * 1024 * 1024;

/// Runtime configuration: how many worker threads to run and how large
/// a coroutine stack to allocate.  A zero worker count means "ask the
/// machine"; it is resolved on the first read.
pub struct Config {
    workers: usize,
    stack_size: usize,
}

impl Config {
    /// The stored worker count (0 until a machine count is resolved).
    pub closed spec fn spec_workers(&self) -> usize {
        self.workers
    }

    /// The stored default stack size.
    pub closed spec fn spec_stack_size(&self) -> usize {
        self.stack_size
    }
}

/// A fresh configuration with every knob at its default.
pub fn config() -> (r: Config)
    ensures
        r.spec_workers() == 0,
        r.spec_stack_size() == DEFAULT_STACK_SIZE,
{
    Config { workers: 0, stack_size: DEFAULT_STACK_SIZE }
}

/// Relies on num_cpus::get: the number of available CPUs, always at least 1.
#[verifier::external_body]
fn cpu_count() -> (r: usize)
    ensures
        r >= 1,
{
    num_cpus::get()
}

impl Config {
    /// Sets the worker thread count; 0 selects the machine's CPU count
    /// on the next read.
    pub fn set_workers(&mut self, workers: usize)
        ensures
            final(self).spec_workers() == workers,
            final(self).spec_stack_size() == old(self).spec_stack_size(),
    {
        self.workers = workers;
    }

    /// The worker thread count; a stored 0 is replaced, once, by the
    /// machine's CPU count.
    pub fn get_workers(&mut self) -> (r: usize)
        ensures
            r >= 1 || r == old(self).spec_workers(),
            old(self).spec_workers() != 0 ==> r == old(self).spec_workers(),
            final(self).spec_workers() == r,
            final(self).spec_stack_size() == old(self).spec_stack_size(),
    {
        if self.workers != 0 {
            self.workers
        } else {
            let num = cpu_count();
            self.workers = num;
            num
        }
    }

    /// Sets the default coroutine stack size in bytes.
    pub fn set_stack_size(&mut self, size: usize)
        ensures
            final(self).spec_stack_size() == size,
            final(self).spec_workers() == old(self).spec_workers(),
    {
        self.stack_size = size;
    }

    /// The default coroutine stack size in bytes.
    pub fn get_stack_size(&self) -> (r: usize)
        ensures
            r == self.spec_stack_size(),
    {
        self.stack_size
    }
}

} // verus!
