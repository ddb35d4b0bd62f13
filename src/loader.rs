//! Bookkeeping of the app loader: saved task contexts, the table of loaded
//! apps, and the boot page table of an app's address space.

use vstd::prelude::*;

verus! {

/// Registers saved across a task switch.
#[derive(Clone, Copy)]
pub struct TaskContext {
    /// Return address after the switch.
    ra: usize,
    /// Stack pointer.
    sp: usize,
    /// Callee-saved registers s0..s11.
    s: [usize; 12],
}

impl TaskContext {
    pub closed spec fn is_zero(&self) -> bool {
        self.ra == 0 && self.sp == 0 && forall|i: int| 0 <= i < 12 ==> #[trigger] self.s@[i] == 0
    }

    /// A context with every register zero.
    pub fn zero_init() -> (r: TaskContext)
        ensures
            r.is_zero(),
    {
        TaskContext { ra: 0, sp: 0, s: [0usize; 12] }
    }
}

/// What the loader knows of the apps it loaded.
pub struct AppManager {
    num_app: usize,
    current_id: usize,
    app_start: [usize; 20],
    tc: [TaskContext; 10],
}

impl AppManager {
    pub closed spec fn num_app(&self) -> usize {
        self.num_app
    }

    pub closed spec fn current_id(&self) -> usize {
        self.current_id
    }

    pub closed spec fn app_starts(&self) -> Seq<usize> {
        self.app_start@
    }

    pub closed spec fn contexts_zero(&self) -> bool {
        forall|i: int| 0 <= i < 10 ==> (#[trigger] self.tc@[i]).is_zero()
    }

    /// An empty manager: no apps, every start address and context zero.
    pub fn new() -> (r: AppManager)
        ensures
            r.num_app() == 0,
            r.current_id() == 0,
            r.app_starts() == Seq::new(20, |i: int| 0usize),
            r.contexts_zero(),
    {
        let r = AppManager {
            num_app: 0,
            current_id: 0,
            app_start: [0usize; 20],
            tc: [TaskContext::zero_init(); 10],
        };
        proof {
            assert(r.app_start@ =~= Seq::new(20, |i: int| 0usize));
        }
        r
    }

    pub fn update_num_app(&mut self, num_app: usize)
        ensures
            final(self).num_app() == num_app,
            final(self).current_id() == old(self).current_id(),
            final(self).app_starts() == old(self).app_starts(),
    {
        self.num_app = num_app;
    }

    pub fn get_num_app(&self) -> (r: usize)
        ensures
            r == self.num_app(),
    {
        self.num_app
    }

    /// Records the given start addresses in the first slots; the others keep
    /// their values.
    pub fn update_app_start(&mut self, app_start: Vec<usize>)
        requires
            app_start@.len() <= 20,
        ensures
            final(self).num_app() == old(self).num_app(),
            final(self).current_id() == old(self).current_id(),
            final(self).app_starts() == app_start@ + old(self).app_starts().subrange(app_start@.len() as int, 20),
    {
        let n = app_start.len();
        let mut i: usize = 0;
        while i < n
            invariant
                n == app_start@.len(),
                n <= 20,
                i <= n,
                self.num_app == old(self).num_app,
                self.current_id == old(self).current_id,
                self.app_start@.len() == 20,
                forall|j: int| 0 <= j < 20 ==> #[trigger] self.app_start@[j]
                    == if j < i { app_start@[j] } else { old(self).app_start@[j] },
            decreases n - i,
        {
            self.app_start[i] = app_start[i];
            i = i + 1;
        }
        proof {
            assert(self.app_start@ =~= app_start@ + old(self).app_start@.subrange(n as int, 20));
        }
    }

    pub fn get_app_start(&self, index: usize) -> (r: usize)
        requires
            index < 20,
        ensures
            r == self.app_starts()[index as int],
    {
        self.app_start[index]
    }

    pub fn update_current_id(&mut self, current_id: usize)
        ensures
            final(self).current_id() == current_id,
            final(self).num_app() == old(self).num_app(),
            final(self).app_starts() == old(self).app_starts(),
    {
        self.current_id = current_id;
    }

    pub fn get_current_id(&self) -> (r: usize)
        ensures
            r == self.current_id(),
    {
        self.current_id
    }
}

/// Entry of a 1 GiB block mapping of physical page number `0x80000`
/// (address `0x8000_0000`), valid, readable, writable, executable, global,
/// accessed and dirty.
pub const BLOCK_8000_0000_VRWX_GAD: u64 = (0x80000 << 10) | 0xef;
/// Entry of a 1 GiB block mapping of address 0 with the same flags.
pub const BLOCK_0_VRWX_GAD: u64 = 0xef;

/// The root of an Sv39 page table for an app's address space.
#[derive(Clone, Copy)]
#[allow(non_snake_case)]
pub struct PageTable {
    pub APP_PT_SV39: [u64; 512],
}

impl PageTable {
    /// The boot table: `0x0..0x4000_0000` maps to itself, and
    /// `0x4000_0000..0x8000_0000`, `0x8000_0000..0xc000_0000` and
    /// `0xffff_ffc0_8000_0000..0xffff_ffc0_c000_0000` map to
    /// `0x8000_0000..0xc000_0000`. Every other entry is empty.
    pub fn new(id: u64) -> (r: PageTable)
        ensures
            forall|i: int| 0 <= i < 512 ==> #[trigger] r.APP_PT_SV39@[i] == if i == 0 {
                0xefu64
            } else if i == 1 || i == 2 || i == 0x102 {
                0x2000_00efu64
            } else {
                0u64
            },
    {
        assert(((0x80000u64 << 10u64) | 0xefu64) == 0x2000_00efu64) by (bit_vector);
        let mut table = PageTable { APP_PT_SV39: [0u64; 512] };
        table.APP_PT_SV39[2] = BLOCK_8000_0000_VRWX_GAD;
        table.APP_PT_SV39[0x102] = BLOCK_8000_0000_VRWX_GAD;
        table.APP_PT_SV39[0] = BLOCK_0_VRWX_GAD;
        table.APP_PT_SV39[1] = BLOCK_8000_0000_VRWX_GAD;
        table
    }
}

} // verus!
