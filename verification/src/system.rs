//! What the machine offers, and the advice on thread counts drawn from it.

use crate::decimal::{decimal, push_decimal};
use crate::models::texts;
use vstd::prelude::*;

verus! {

/// The number of logical CPUs that this process may use.
///
/// Calls `num_cpus::get`, whose documentation promises a count of at least
/// one. The count depends on the machine and on the moment, so nothing else
/// is claimed of it.
#[verifier::external_body]
fn logical_cpus() -> (n: usize)
    ensures
        n >= 1,
{
    num_cpus::get()
}

/// The number of physical CPU cores of this machine.
///
/// Calls `num_cpus::get_physical`, whose documentation promises a count of
/// at least one. The count depends on the machine, so nothing else is
/// claimed of it.
#[verifier::external_body]
fn physical_cpus() -> (n: usize)
    ensures
        n >= 1,
{
    num_cpus::get_physical()
}

/// The number of workers of a search for which none was asked: one for
/// each physical core.
pub fn default_thread_count() -> (n: usize)
    ensures
        n >= 1,
{
    physical_cpus()
}

/// The thread count to suggest on a machine with `threads` logical CPUs:
/// twice as many, or the largest count there is where that is less.
pub open spec fn thread_suggestion_spec(threads: usize) -> usize {
    if 2 * threads <= usize::MAX {
        (2 * threads) as usize
    } else {
        usize::MAX
    }
}

/// The thread count to suggest on a machine with `threads` logical CPUs.
pub fn thread_suggestion(threads: usize) -> (n: usize)
    ensures
        n == thread_suggestion_spec(threads),
{
    if threads <= usize::MAX / 2 {
        threads * 2
    } else {
        usize::MAX
    }
}

/// The lines that tell the user about the machine's CPUs, for `cores`
/// physical cores, `threads` logical CPUs and `requested` threads asked for.
pub open spec fn cpu_lines(cores: usize, threads: usize, requested: usize) -> Seq<Seq<char>> {
    seq![
        "\n"@,
        "::CPU Information::"@,
        " - "@ + decimal(cores as nat) + " cores available"@,
        " - "@ + decimal(threads as nat) + " threads available"@,
        "\n💡 Optimize search speed by doubling the thread count or higher. E.g. -t "@ + decimal(
            thread_suggestion_spec(threads) as nat,
        ) + "\n"@,
        "🥞 "@ + decimal(requested as nat) + " Threads requested. Distributing workload...\n"@,
    ]
}

/// `number` between the texts `before` and `after`.
fn numbered_line(before: &str, number: usize, after: &str) -> (line: String)
    ensures
        line@ == before@ + decimal(number as nat) + after@,
{
    let mut line = String::from_str(before);
    push_decimal(&mut line, number as u64);
    line.append(after);
    line
}

/// The lines that tell the user about the machine's CPUs, for `cores`
/// physical cores, `threads` logical CPUs and `requested` threads asked for.
pub fn verbose_lines(cores: usize, threads: usize, requested: usize) -> (lines: Vec<String>)
    ensures
        texts(lines@) == cpu_lines(cores, threads, requested),
{
    let mut lines: Vec<String> = Vec::new();
    lines.push(String::from_str("\n"));
    lines.push(String::from_str("::CPU Information::"));
    lines.push(numbered_line(" - ", cores, " cores available"));
    lines.push(numbered_line(" - ", threads, " threads available"));
    lines.push(
        numbered_line(
            "\n💡 Optimize search speed by doubling the thread count or higher. E.g. -t ",
            thread_suggestion(threads),
            "\n",
        ),
    );
    lines.push(numbered_line("🥞 ", requested, " Threads requested. Distributing workload...\n"));
    assert(texts(lines@) =~= cpu_lines(cores, threads, requested));
    lines
}

/// CPU information to help choose how many threads to ask for: the lines to
/// show for this machine when `requested_thread_count` threads were asked
/// for. The counts are the machine's own, each at least one.
pub fn verbose_info(requested_thread_count: usize) -> (lines: Vec<String>)
    ensures
        exists|cores: usize, threads: usize|
            cores >= 1 && threads >= 1 && texts(lines@) == #[trigger] cpu_lines(
                cores,
                threads,
                requested_thread_count,
            ),
{
    let available_cpus = physical_cpus();
    let available_cpu_threads = logical_cpus();
    verbose_lines(available_cpus, available_cpu_threads, requested_thread_count)
}

} // verus!
