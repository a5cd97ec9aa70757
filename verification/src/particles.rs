//! CPU-side bookkeeping of the GPU particle system: the xorshift random
//! source, the ring of particle slots that emissions are assigned to, and
//! the plan of buffer updates that uploads queued emissions.
use vstd::prelude::*;

verus! {

// ---------------------------------------------------------------------------
// Rng
// ---------------------------------------------------------------------------

/// The xorshift32 step (shifts 13, 17, 5).
pub open spec fn xorshift32(x: u32) -> u32 {
    let a = x ^ (x << 13u32);
    let b = a ^ (a >> 17u32);
    b ^ (b << 5u32)
}

/// The seed used when the clock gives zero (xorshift never leaves zero).
pub const ZERO_SEED_REPLACEMENT: u32 = 0xDEAD_BEEF;

/// The state a generator starts from for a given seed.
pub open spec fn seeded_state(seed: u32) -> u32 {
    if seed == 0 {
        ZERO_SEED_REPLACEMENT
    } else {
        seed
    }
}

/// The clock reading type of std, carried through opaquely.
#[verifier::external_type_specification]
#[verifier::external_body]
pub struct ExSystemTime(std::time::SystemTime);

/// The error std gives for a clock reading before a reference time.
#[verifier::external_type_specification]
#[verifier::external_body]
pub struct ExSystemTimeError(std::time::SystemTimeError);

/// Calls `std::time::SystemTime::now`. The reading depends on the clock,
/// so nothing is claimed of it.
#[verifier::external_body]
fn system_time_now() -> (r: std::time::SystemTime) {
    std::time::SystemTime::now()
}

/// Calls `SystemTime::duration_since` with the Unix epoch. Whether it
/// succeeds and what it returns depend on the clock reading, so nothing is
/// claimed of the result.
#[verifier::external_body]
fn since_unix_epoch(t: &std::time::SystemTime) -> (r: Result<core::time::Duration, std::time::SystemTimeError>) {
    t.duration_since(std::time::UNIX_EPOCH)
}

/// Calls `Duration::subsec_nanos`, which std documents as the fractional
/// part of the duration in nanoseconds: always below one second.
#[verifier::external_body]
fn duration_subsec_nanos(d: &core::time::Duration) -> (r: u32)
    ensures
        r < 1_000_000_000,
{
    d.subsec_nanos()
}

/// The nanoseconds part of the current wall-clock time, 0 if the clock reads
/// before the Unix epoch.
fn clock_subsec_nanos() -> (r: u32)
    ensures
        r < 1_000_000_000,
{
    let now = system_time_now();
    match since_unix_epoch(&now) {
        Ok(d) => duration_subsec_nanos(&d),
        Err(_) => 0,
    }
}

/// Simple xorshift32 pseudo random generator for emission variation.
pub struct Rng {
    state: u32,
}

impl Rng {
    /// The generator's current state.
    pub closed spec fn spec_state(&self) -> u32 {
        self.state
    }

    /// A generator seeded with the given value (zero is replaced, since
    /// xorshift would stay at zero forever).
    pub fn from_seed(seed: u32) -> (r: Self)
        ensures
            r.spec_state() == seeded_state(seed),
            r.spec_state() != 0,
    {
        Rng { state: if seed == 0 { ZERO_SEED_REPLACEMENT } else { seed } }
    }

    /// A generator seeded from the clock.
    pub fn from_time() -> (r: Self)
        ensures
            r.spec_state() != 0,
            exists|seed: u32| seed < 1_000_000_000 && r.spec_state() == seeded_state(seed),
    {
        let seed = clock_subsec_nanos();
        Self::from_seed(seed)
    }

    /// The generator's current state.
    pub fn state(&self) -> (r: u32)
        ensures
            r == self.spec_state(),
    {
        self.state
    }

    /// Advance the generator one xorshift32 step and return the new state.
    pub fn next_u32(&mut self) -> (r: u32)
        ensures
            r == xorshift32(old(self).spec_state()),
            final(self).spec_state() == r,
    {
        let mut x = self.state;
        x ^= x << 13u32;
        x ^= x >> 17u32;
        x ^= x << 5u32;
        self.state = x;
        x
    }
}

/// The xorshift32 step never maps a nonzero state to zero, so a generator
/// started from a nonzero seed never gets stuck.
pub proof fn lemma_xorshift_nonzero(x: u32)
    requires
        x != 0,
    ensures
        xorshift32(x) != 0,
{
    let a = x ^ (x << 13u32);
    let b = a ^ (a >> 17u32);
    assert(x != 0 ==> (x ^ (x << 13u32)) != 0) by (bit_vector);
    assert(a != 0 ==> (a ^ (a >> 17u32)) != 0) by (bit_vector);
    assert(b != 0 ==> (b ^ (b << 5u32)) != 0) by (bit_vector);
}

// ---------------------------------------------------------------------------
// Emission upload planning
// ---------------------------------------------------------------------------

/// Largest data size of one `vkCmdUpdateBuffer` call, in bytes.
pub const UPDATE_BUFFER_LIMIT: usize = 65536;

/// Workgroup size of the particle simulation compute shader.
pub const PARTICLE_WORKGROUP_SIZE: u32 = 256;

/// One buffer update: copy `len` bytes starting at byte `src_offset` of the
/// queued particle data to byte `dst_offset` of the particle state buffer.
#[derive(Debug, Clone, Copy, PartialEq, Eq, Structural)]
pub struct BufferUpdate {
    pub dst_offset: u64,
    pub src_offset: usize,
    pub len: usize,
}

/// `ups` copies the `len` bytes at `src_base` to `dst_base`, in pieces of at
/// most [`UPDATE_BUFFER_LIMIT`] bytes, the pieces starting every
/// [`UPDATE_BUFFER_LIMIT`] bytes from the start of the run.
pub open spec fn chunked_run(ups: Seq<BufferUpdate>, dst_base: int, src_base: int, len: int) -> bool {
    let lim = UPDATE_BUFFER_LIMIT as int;
    &&& ups.len() == (len + lim - 1) / lim
    &&& forall|i: int|
        0 <= i < ups.len() ==> {
            &&& (#[trigger] ups[i]).src_offset == src_base + i * lim
            &&& ups[i].dst_offset == dst_base + i * lim
            &&& ups[i].len == (if len - i * lim < lim {
                len - i * lim
            } else {
                lim
            })
        }
}

/// The first slot that the queued emissions were assigned to.
pub open spec fn emission_start(pool_index: int, max_particles: int, emit_count: int) -> int {
    (pool_index + max_particles - emit_count) % max_particles
}

/// How many of the queued emissions fit before the end of the ring.
pub open spec fn emission_first_count(start: int, max_particles: int, emit_count: int) -> int {
    if start + emit_count <= max_particles {
        emit_count
    } else {
        max_particles - start
    }
}

/// Append the chunked copy of one contiguous run to `plan`.
fn push_chunked(plan: &mut Vec<BufferUpdate>, dst_base: u64, src_base: usize, len: usize)
    requires
        dst_base + len <= u64::MAX,
        src_base + len <= usize::MAX,
    ensures
        final(plan)@.len() >= old(plan)@.len(),
        final(plan)@.subrange(0, old(plan)@.len() as int) == old(plan)@,
        chunked_run(
            final(plan)@.subrange(old(plan)@.len() as int, final(plan)@.len() as int),
            dst_base as int,
            src_base as int,
            len as int,
        ),
{
    let ghost start_len = plan@.len();
    let mut done: usize = 0;
    let ghost mut k: int = 0;
    while done < len
        invariant
            dst_base + len <= u64::MAX,
            src_base + len <= usize::MAX,
            done <= len,
            k >= 0,
            done < len ==> done == k * UPDATE_BUFFER_LIMIT,
            done == len ==> k == (len + UPDATE_BUFFER_LIMIT - 1) / (UPDATE_BUFFER_LIMIT as int),
            plan@.len() == start_len + k,
            plan@.subrange(0, start_len as int) == old(plan)@,
            forall|i: int|
                start_len <= i < plan@.len() ==> {
                    let j = i - start_len;
                    &&& (#[trigger] plan@[i]).src_offset == src_base + j * UPDATE_BUFFER_LIMIT
                    &&& plan@[i].dst_offset == dst_base + j * UPDATE_BUFFER_LIMIT
                    &&& plan@[i].len == (if len - j * UPDATE_BUFFER_LIMIT < UPDATE_BUFFER_LIMIT {
                        len - j * UPDATE_BUFFER_LIMIT
                    } else {
                        UPDATE_BUFFER_LIMIT as int
                    })
                },
        decreases len - done,
    {
        let piece = if len - done < UPDATE_BUFFER_LIMIT {
            len - done
        } else {
            UPDATE_BUFFER_LIMIT
        };
        let ghost before = plan@;
        plan.push(
            BufferUpdate {
                dst_offset: dst_base + done as u64,
                src_offset: src_base + done,
                len: piece,
            },
        );
        proof {
            assert forall|i: int| 0 <= i < start_len implies plan@[i] == old(plan)@[i] by {
                assert(plan@[i] == before[i]);
                assert(before.subrange(0, start_len as int)[i] == before[i]);
            }
            assert(plan@.subrange(0, start_len as int) =~= old(plan)@);
            assert forall|i: int| start_len <= i < plan@.len() implies {
                let j = i - start_len;
                &&& (#[trigger] plan@[i]).src_offset == src_base + j * UPDATE_BUFFER_LIMIT
                &&& plan@[i].dst_offset == dst_base + j * UPDATE_BUFFER_LIMIT
                &&& plan@[i].len == (if len - j * UPDATE_BUFFER_LIMIT < UPDATE_BUFFER_LIMIT {
                    len - j * UPDATE_BUFFER_LIMIT
                } else {
                    UPDATE_BUFFER_LIMIT as int
                })
            } by {
                if i < plan@.len() - 1 {
                    assert(plan@[i] == before[i]);
                }
            }
        }
        done = done + piece;
        proof {
            k = k + 1;
            if done == len {
                assert((k - 1) * 65536 < len <= k * 65536);
                assert(k == (len + 65535) / 65536);
            }
        }
    }
    let ghost tail = plan@.subrange(start_len as int, plan@.len() as int);
    assert forall|i: int| 0 <= i < tail.len() implies {
        &&& (#[trigger] tail[i]).src_offset == src_base + i * UPDATE_BUFFER_LIMIT
        &&& tail[i].dst_offset == dst_base + i * UPDATE_BUFFER_LIMIT
        &&& tail[i].len == (if len - i * UPDATE_BUFFER_LIMIT < UPDATE_BUFFER_LIMIT {
            len - i * UPDATE_BUFFER_LIMIT
        } else {
            UPDATE_BUFFER_LIMIT as int
        })
    } by {
        assert(tail[i] == plan@[start_len + i]);
    }
}


/// The buffer updates that upload `emit_count` queued particles of
/// `particle_size` bytes each into the ring of `max_particles` slots, when
/// the next free slot is `pool_index`.
///
/// The queued particles went to the `emit_count` slots before `pool_index`
/// (wrapping around the ring), starting at [`emission_start`]. The upload is
/// split into at most two contiguous runs: the particles that fit before the
/// end of the ring, then the rest at the ring's beginning; each run is cut
/// into pieces of at most [`UPDATE_BUFFER_LIMIT`] bytes.
pub fn plan_emission_upload(
    pool_index: u32,
    max_particles: u32,
    emit_count: u32,
    particle_size: usize,
) -> (plan: Vec<BufferUpdate>)
    requires
        pool_index < max_particles,
        pool_index + max_particles <= u32::MAX,
        emit_count <= pool_index + max_particles,
        emit_count * particle_size <= usize::MAX,
        max_particles * particle_size <= u64::MAX,
    ensures
        ({
            let start = emission_start(pool_index as int, max_particles as int, emit_count as int);
            let first = emission_first_count(start, max_particles as int, emit_count as int);
            let ps = particle_size as int;
            let lim = UPDATE_BUFFER_LIMIT as int;
            let n1 = (first * ps + lim - 1) / lim;
            &&& emit_count == 0 ==> plan@.len() == 0
            &&& emit_count > 0 ==> {
                &&& n1 <= plan@.len()
                &&& chunked_run(plan@.subrange(0, n1), start * ps, 0, first * ps)
                &&& chunked_run(
                    plan@.subrange(n1, plan@.len() as int),
                    0,
                    first * ps,
                    (emit_count - first) * ps,
                )
            }
        }),
{
    let mut plan: Vec<BufferUpdate> = Vec::new();
    if emit_count == 0 {
        return plan;
    }
    let start = (pool_index + max_particles - emit_count) % max_particles;
    proof {
        if emit_count <= pool_index {
            assert((pool_index + max_particles - emit_count) % (max_particles as int) == pool_index
                - emit_count) by {
                vstd::arithmetic::div_mod::lemma_mod_add_multiples_vanish(
                    (pool_index - emit_count) as int,
                    max_particles as int,
                );
                vstd::arithmetic::div_mod::lemma_small_mod(
                    (pool_index - emit_count) as nat,
                    max_particles as nat,
                );
            }
        } else {
            vstd::arithmetic::div_mod::lemma_small_mod(
                (pool_index + max_particles - emit_count) as nat,
                max_particles as nat,
            );
        }
        assert(start + emit_count <= u32::MAX);
        assert(start as int * particle_size <= max_particles * particle_size) by (nonlinear_arith)
            requires
                start < max_particles,
        ;
    }
    if start + emit_count <= max_particles {
        let bytes = emit_count as usize * particle_size;
        let offset = start as u64 * particle_size as u64;
        proof {
            assert(start * particle_size + emit_count * particle_size <= max_particles
                * particle_size) by (nonlinear_arith)
                requires
                    start + emit_count <= max_particles,
            ;
        }
        push_chunked(&mut plan, offset, 0, bytes);
        proof {
            assert(start as int == emission_start(pool_index as int, max_particles as int, emit_count as int));
            assert(plan@.subrange(0, 0) =~= Seq::<BufferUpdate>::empty());
            assert(plan@.subrange(0, plan@.len() as int) =~= plan@);
            assert(plan@.subrange(plan@.len() as int, plan@.len() as int) =~= Seq::<
                BufferUpdate,
            >::empty());
        }
    } else {
        let first_count = max_particles - start;
        proof {
            assert(start * particle_size + first_count * particle_size == max_particles
                * particle_size) by (nonlinear_arith)
                requires
                    start + first_count == max_particles,
            ;
            assert(first_count * particle_size <= emit_count * particle_size) by (nonlinear_arith)
                requires
                    first_count <= emit_count,
            ;
        }
        let first_bytes = first_count as usize * particle_size;
        let first_offset = start as u64 * particle_size as u64;
        push_chunked(&mut plan, first_offset, 0, first_bytes);
        let ghost plan1 = plan@;
        assert(plan1.subrange(0, plan1.len() as int) =~= plan1);
        let second_count = emit_count - first_count;
        proof {
            assert(first_count * particle_size + second_count * particle_size == emit_count
                * particle_size) by (nonlinear_arith)
                requires
                    first_count + second_count == emit_count,
            ;
        }
        let second_bytes = second_count as usize * particle_size;
        push_chunked(&mut plan, 0, first_bytes, second_bytes);
        assert(plan@.subrange(0, plan1.len() as int) == plan1);
        proof {
            let ps = particle_size as int;
            let lim = UPDATE_BUFFER_LIMIT as int;
            assert(start as int == emission_start(pool_index as int, max_particles as int, emit_count as int));
            assert(first_count as int == emission_first_count(start as int, max_particles as int, emit_count as int));
            assert(plan1.len() == (first_count * ps + lim - 1) / lim);
            assert(plan@.subrange(0, plan1.len() as int) == plan1);
        }
    }
    plan
}


/// The pieces of a chunked run tile the run: each piece is non-empty and at
/// most [`UPDATE_BUFFER_LIMIT`] bytes, each starts where the previous one
/// ended, the first starts at the run's start and the last ends at its end,
/// and every piece keeps the run's distance between source and destination.
pub proof fn lemma_chunked_run_tiles(ups: Seq<BufferUpdate>, dst_base: int, src_base: int, len: int)
    requires
        chunked_run(ups, dst_base, src_base, len),
        len >= 0,
    ensures
        forall|i: int|
            0 <= i < ups.len() ==> 0 < (#[trigger] ups[i]).len <= UPDATE_BUFFER_LIMIT,
        forall|i: int|
            0 <= i < ups.len() ==> (#[trigger] ups[i]).dst_offset - ups[i].src_offset == dst_base
                - src_base,
        forall|i: int|
            0 <= i < ups.len() - 1 ==> #[trigger] ups[i].src_offset + ups[i].len == ups[i
                + 1].src_offset,
        ups.len() > 0 ==> ups[0].src_offset == src_base,
        ups.len() > 0 ==> ups[ups.len() - 1].src_offset + ups[ups.len() - 1].len == src_base
            + len,
        ups.len() == 0 <==> len == 0,
{
    let lim = UPDATE_BUFFER_LIMIT as int;
    assert forall|i: int| 0 <= i < ups.len() implies 0 < (#[trigger] ups[i]).len <= lim by {
        assert(i < (len + lim - 1) / lim);
        assert(i * lim < len);
    }
    assert forall|i: int| 0 <= i < ups.len() - 1 implies #[trigger] ups[i].src_offset
        + ups[i].len == ups[i + 1].src_offset by {
        assert(i + 1 < (len + lim - 1) / lim);
        assert((i + 1) * lim < len);
    }
    if ups.len() > 0 {
        let last = ups.len() - 1;
        assert(last == (len + lim - 1) / lim - 1);
        assert(last * lim < len <= last * lim + lim);
    }
}

/// The ring slot that the `k`-th queued particle was assigned to.
pub open spec fn particle_slot(start: int, max_particles: int, k: int) -> int {
    (start + k) % max_particles
}

/// Each byte of the queued data lands in the slot of its particle: byte `b`
/// belongs to particle `b / particle_size`, and the run that holds it (the
/// first run for the particles that fit before the end of the ring, the
/// second for the others) writes it at that particle's slot times the
/// particle size, plus its place within the particle.
pub proof fn lemma_emission_bytes_land_in_slots(
    pool_index: int,
    max_particles: int,
    emit_count: int,
    particle_size: int,
    b: int,
)
    requires
        0 <= pool_index < max_particles,
        0 <= emit_count <= pool_index + max_particles,
        particle_size > 0,
        0 <= b < emit_count * particle_size,
    ensures
        ({
            let start = emission_start(pool_index, max_particles, emit_count);
            let first = emission_first_count(start, max_particles, emit_count);
            let slot = particle_slot(start, max_particles, b / particle_size);
            &&& b < first * particle_size ==> start * particle_size + b == slot * particle_size + b
                % particle_size
            &&& b >= first * particle_size ==> b - first * particle_size == slot * particle_size + b
                % particle_size
        }),
{
    let start = emission_start(pool_index, max_particles, emit_count);
    let first = emission_first_count(start, max_particles, emit_count);
    let k = b / particle_size;
    let r = b % particle_size;
    vstd::arithmetic::div_mod::lemma_fundamental_div_mod(b, particle_size);
    assert(k * particle_size + r == b);
    assert(0 <= r < particle_size);
    assert(0 <= k < emit_count) by (nonlinear_arith)
        requires
            k * particle_size + r == b,
            0 <= r < particle_size,
            0 <= b < emit_count * particle_size,
    ;
    if emit_count <= pool_index {
        vstd::arithmetic::div_mod::lemma_mod_add_multiples_vanish(
            pool_index - emit_count,
            max_particles,
        );
        vstd::arithmetic::div_mod::lemma_small_mod(
            (pool_index - emit_count) as nat,
            max_particles as nat,
        );
        assert(start == pool_index - emit_count);
    } else {
        vstd::arithmetic::div_mod::lemma_small_mod(
            (pool_index + max_particles - emit_count) as nat,
            max_particles as nat,
        );
        assert(start == pool_index + max_particles - emit_count);
    }
    if b < first * particle_size {
        assert(k < first) by (nonlinear_arith)
            requires
                k * particle_size + r == b,
                0 <= r,
                b < first * particle_size,
                particle_size > 0,
        ;
        vstd::arithmetic::div_mod::lemma_small_mod(
            (start + k) as nat,
            max_particles as nat,
        );
        assert(start * particle_size + b == (start + k) * particle_size + r) by (nonlinear_arith)
            requires
                k * particle_size + r == b,
        ;
    } else {
        assert(k >= first) by (nonlinear_arith)
            requires
                k * particle_size + r == b,
                r < particle_size,
                b >= first * particle_size,
                particle_size > 0,
        ;
        assert(start + emit_count > max_particles);
        assert(first == max_particles - start);
        assert(start + k - max_particles < max_particles);
        vstd::arithmetic::div_mod::lemma_mod_sub_multiples_vanish(start + k, max_particles);
        vstd::arithmetic::div_mod::lemma_small_mod(
            (start + k - max_particles) as nat,
            max_particles as nat,
        );
        assert(particle_slot(start, max_particles, k) == k - first);
        assert(b - first * particle_size == (k - first) * particle_size + r) by (nonlinear_arith)
            requires
                k * particle_size + r == b,
        ;
    }
}

/// The first slot of a batch of `count` emissions is the slot that was next
/// free when the batch began: after `count` emissions from `pool_before`
/// the next free slot is `(pool_before + count) % max_particles`, and the
/// upload starts at `pool_before` again.
pub proof fn lemma_emission_start_is_batch_start(pool_before: int, max_particles: int, count: int)
    requires
        0 <= pool_before < max_particles,
        0 <= count <= max_particles,
    ensures
        emission_start((pool_before + count) % max_particles, max_particles, count) == pool_before,
{
    let p = (pool_before + count) % max_particles;
    if pool_before + count < max_particles {
        vstd::arithmetic::div_mod::lemma_small_mod(
            (pool_before + count) as nat,
            max_particles as nat,
        );
        vstd::arithmetic::div_mod::lemma_mod_add_multiples_vanish(pool_before, max_particles);
        vstd::arithmetic::div_mod::lemma_small_mod(pool_before as nat, max_particles as nat);
    } else {
        vstd::arithmetic::div_mod::lemma_mod_sub_multiples_vanish(
            pool_before + count,
            max_particles,
        );
        vstd::arithmetic::div_mod::lemma_small_mod(
            (pool_before + count - max_particles) as nat,
            max_particles as nat,
        );
        assert(p == pool_before + count - max_particles);
        vstd::arithmetic::div_mod::lemma_small_mod(pool_before as nat, max_particles as nat);
    }
}

// ---------------------------------------------------------------------------
// Emission queue
// ---------------------------------------------------------------------------

/// The indexed indirect draw command that the compute shader fills in
/// (`VkDrawIndexedIndirectCommand`).
#[derive(Debug, Clone, Copy, PartialEq, Eq, Structural)]
pub struct DrawIndexedIndirectCommand {
    pub index_count: u32,
    pub instance_count: u32,
    pub first_index: u32,
    pub vertex_offset: i32,
    pub first_instance: u32,
}

/// The command the indirect buffer is reset to before each simulation
/// step: one quad (6 indices), no instances yet.
pub fn indirect_reset_command() -> (r: DrawIndexedIndirectCommand)
    ensures
        r == (DrawIndexedIndirectCommand {
            index_count: 6,
            instance_count: 0,
            first_index: 0,
            vertex_offset: 0,
            first_instance: 0,
        }),
{
    DrawIndexedIndirectCommand {
        index_count: 6,
        instance_count: 0,
        first_index: 0,
        vertex_offset: 0,
        first_instance: 0,
    }
}

/// Number of compute workgroups that cover `max_particles` particles.
pub fn simulation_workgroups(max_particles: u32) -> (r: u32)
    ensures
        r == (max_particles + PARTICLE_WORKGROUP_SIZE - 1) / (PARTICLE_WORKGROUP_SIZE as int),
        r * PARTICLE_WORKGROUP_SIZE >= max_particles,
        r * PARTICLE_WORKGROUP_SIZE < max_particles + PARTICLE_WORKGROUP_SIZE,
{
    let q = max_particles / PARTICLE_WORKGROUP_SIZE;
    if max_particles % PARTICLE_WORKGROUP_SIZE == 0 {
        q
    } else {
        q + 1
    }
}

/// Particles emitted since the last simulation step, waiting to be
/// uploaded, and the ring of particle slots they were assigned to.
pub struct EmissionQueue<P> {
    queue: Vec<P>,
    pool_index: u32,
    max_particles: u32,
}

impl<P> EmissionQueue<P> {
    /// The queued particles, oldest first.
    pub closed spec fn spec_queue(&self) -> Seq<P> {
        self.queue@
    }

    /// The next free slot of the ring.
    pub closed spec fn spec_pool_index(&self) -> u32 {
        self.pool_index
    }

    /// The number of slots of the ring.
    pub closed spec fn spec_max_particles(&self) -> u32 {
        self.max_particles
    }

    /// The ring has slots and its next free slot is one of them.
    pub open spec fn wf(&self) -> bool {
        0 < self.spec_max_particles() && self.spec_pool_index() < self.spec_max_particles()
    }

    /// An empty queue over a ring of `max_particles` slots.
    pub fn new(max_particles: u32) -> (r: Self)
        requires
            max_particles > 0,
        ensures
            r.wf(),
            r.spec_queue() == Seq::<P>::empty(),
            r.spec_pool_index() == 0,
            r.spec_max_particles() == max_particles,
    {
        EmissionQueue { queue: Vec::new(), pool_index: 0, max_particles }
    }

    /// Queue a particle; it takes the next free slot of the ring.
    pub fn emit(&mut self, particle: P)
        requires
            old(self).wf(),
        ensures
            final(self).wf(),
            final(self).spec_queue() == old(self).spec_queue().push(particle),
            final(self).spec_pool_index() == (old(self).spec_pool_index() + 1) % (old(
                self,
            ).spec_max_particles() as int),
            final(self).spec_max_particles() == old(self).spec_max_particles(),
    {
        self.queue.push(particle);
        self.pool_index = (self.pool_index + 1) % self.max_particles;
    }

    /// The queued particles, oldest first.
    pub fn queued(&self) -> (r: &[P])
        ensures
            r@ == self.spec_queue(),
    {
        self.queue.as_slice()
    }

    /// The next free slot of the ring.
    pub fn pool_index(&self) -> (r: u32)
        ensures
            r == self.spec_pool_index(),
    {
        self.pool_index
    }

    /// The number of slots of the ring.
    pub fn max_particles(&self) -> (r: u32)
        ensures
            r == self.spec_max_particles(),
    {
        self.max_particles
    }

    /// The buffer updates that upload the queued particles, each of
    /// `particle_size` bytes, into their slots of the particle state buffer.
    pub fn plan_upload(&self, particle_size: usize) -> (plan: Vec<BufferUpdate>)
        requires
            self.wf(),
            self.spec_pool_index() + self.spec_max_particles() <= u32::MAX,
            self.spec_queue().len() <= self.spec_pool_index() + self.spec_max_particles(),
            self.spec_queue().len() * particle_size <= usize::MAX,
            self.spec_max_particles() * particle_size <= u64::MAX,
        ensures
            ({
                let start = emission_start(
                    self.spec_pool_index() as int,
                    self.spec_max_particles() as int,
                    self.spec_queue().len() as int,
                );
                let emit_count = self.spec_queue().len() as int;
                let first = emission_first_count(start, self.spec_max_particles() as int, emit_count);
                let ps = particle_size as int;
                let lim = UPDATE_BUFFER_LIMIT as int;
                let n1 = (first * ps + lim - 1) / lim;
                &&& emit_count == 0 ==> plan@.len() == 0
                &&& emit_count > 0 ==> {
                    &&& n1 <= plan@.len()
                    &&& chunked_run(plan@.subrange(0, n1), start * ps, 0, first * ps)
                    &&& chunked_run(
                        plan@.subrange(n1, plan@.len() as int),
                        0,
                        first * ps,
                        (emit_count - first) * ps,
                    )
                }
            }),
    {
        let emit_count = self.queue.len() as u32;
        plan_emission_upload(self.pool_index, self.max_particles, emit_count, particle_size)
    }

    /// Drop the queued particles once they were uploaded; the ring position
    /// is kept.
    pub fn clear(&mut self)
        ensures
            final(self).spec_queue() == Seq::<P>::empty(),
            final(self).spec_pool_index() == old(self).spec_pool_index(),
            final(self).spec_max_particles() == old(self).spec_max_particles(),
    {
        self.queue.clear();
    }
}

} // verus!
