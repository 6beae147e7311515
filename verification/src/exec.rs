//! `execve`: the arguments and environment the new program gets, and the new image of the
//! task, its address space and its initial stack.
use vstd::prelude::*;
use crate::frame_allocator::StackFrameAllocator;
use crate::loader::{elf_loaded, elf_space_built, interp_view, load_elf, load_fails, LoadedELF, UserLayout};
use crate::ustack::{init_ustack, stack_built, stack_size, StackLayout};

verus! {

/// The name that a shell script runs under.
pub open spec fn busybox() -> Seq<u8> {
    seq![98u8, 117u8, 115u8, 121u8, 98u8, 111u8, 120u8]
}

/// The first argument of a shell script.
pub open spec fn sh() -> Seq<u8> {
    seq![115u8, 104u8]
}

/// The environment every program gets after its own: `PATH=/`, `LD_LIBRARY_PATH=/` and
/// `ENOUGH=5000`.
pub open spec fn fixed_envs() -> Seq<Seq<u8>> {
    seq![
        seq![80u8, 65u8, 84u8, 72u8, 61u8, 47u8],
        seq![76u8, 68u8, 95u8, 76u8, 73u8, 66u8, 82u8, 65u8, 82u8, 89u8, 95u8, 80u8, 65u8, 84u8, 72u8, 61u8, 47u8],
        seq![69u8, 78u8, 79u8, 85u8, 71u8, 72u8, 61u8, 53u8, 48u8, 48u8, 48u8],
    ]
}

/// Whether `path` ends with `.sh`.
pub open spec fn is_script(path: Seq<u8>) -> bool {
    path.len() >= 3 && path[path.len() - 3] == 46u8 && path[path.len() - 2] == 115u8 && path[path.len() - 1]
        == 104u8
}

/// The views of byte strings.
pub open spec fn views(v: Seq<Vec<u8>>) -> Seq<Seq<u8>> {
    v.map_values(|s: Vec<u8>| s@)
}

/// Whether `path` ends with `.sh`.
fn ends_with_sh(path: &Vec<u8>) -> (r: bool)
    ensures
        r == is_script(path@),
{
    let n = path.len();
    n >= 3 && path[n - 3] == 46u8 && path[n - 2] == 115u8 && path[n - 1] == 104u8
}

/// What `execve(path, argv, envp)` runs: a path that ends with `.sh` runs `busybox` with
/// `sh` before the arguments; the environment gets `PATH=/`, `LD_LIBRARY_PATH=/` and
/// `ENOUGH=5000` after its own entries.
pub fn exec_arguments(path: Vec<u8>, args: Vec<Vec<u8>>, envs: Vec<Vec<u8>>) -> (r: (Vec<u8>, Vec<Vec<u8>>, Vec<Vec<u8>>))
    ensures
        is_script(path@) ==> r.0@ == busybox() && views(r.1@) == seq![sh()] + views(args@),
        !is_script(path@) ==> r.0@ == path@ && views(r.1@) == views(args@),
        views(r.2@) == views(envs@) + fixed_envs(),
{
    let script = ends_with_sh(&path);
    let mut args_vec: Vec<Vec<u8>> = Vec::new();
    let new_path = if script {
        args_vec.push(vec![115u8, 104u8]);
        vec![98u8, 117u8, 115u8, 121u8, 98u8, 111u8, 120u8]
    } else {
        path
    };
    let ghost start = args_vec@;
    let mut rest = args;
    let ghost a0 = rest@;
    args_vec.append(&mut rest);
    proof {
        assert(views(args_vec@) =~= views(start) + views(a0));
        if script {
            assert(views(start) =~= seq![sh()]);
        } else {
            assert(views(start) =~= Seq::<Seq<u8>>::empty());
            assert(views(args_vec@) =~= views(a0));
        }
    }
    let mut envs_vec = envs;
    let ghost e0 = views(envs_vec@);
    envs_vec.push(vec![80u8, 65u8, 84u8, 72u8, 61u8, 47u8]);
    envs_vec.push(vec![76u8, 68u8, 95u8, 76u8, 73u8, 66u8, 82u8, 65u8, 82u8, 89u8, 95u8, 80u8, 65u8, 84u8, 72u8, 61u8, 47u8]);
    envs_vec.push(vec![69u8, 78u8, 79u8, 85u8, 71u8, 72u8, 61u8, 53u8, 48u8, 48u8, 48u8]);
    proof {
        assert(views(envs_vec@) =~= e0 + fixed_envs());
    }
    (new_path, args_vec, envs_vec)
}

/// The new image of a task that runs the program `data` of file `file` (and the
/// interpreter `interp`) with `args` and `envs`: its address space, as [`load_elf`] builds
/// it, and its initial stack, as [`init_ustack`] lays it out below the stack top of that
/// space with its auxiliary entries. `None` when the program cannot be loaded or the
/// strings do not fit below the stack top.
pub fn exec_image(
    file: u64,
    data: &[u8],
    interp: Option<(u64, &[u8])>,
    layout: UserLayout,
    allocator: &mut StackFrameAllocator,
    args: &Vec<Vec<u8>>,
    envs: &Vec<Vec<u8>>,
) -> (r: Option<(LoadedELF, StackLayout)>)
    requires
        old(allocator)@.wf(),
    ensures
        final(allocator)@.wf(),
        r matches Some((l, s)) ==> elf_loaded(file, data@, interp_view(interp), layout, l) && stack_built(
            l.user_stack_top,
            args@,
            envs@,
            l.auxs@.len() as int,
            s,
        ),
        crate::elf::elf_header_of(data@) is None ==> r is None,
        r is None ==> load_fails(data@, interp_view(interp), layout, old(allocator)@) || stack_size(
            args@,
            envs@,
            22,
        ) > layout.user_stack_base,
{
    let loaded = match load_elf(file, data, interp, layout, allocator) {
        Some(l) => l,
        None => {
            return None;
        },
    };
    proof {
        let (phs, ip) = choose|phs: Seq<crate::elf::ProgramHeaderInfo>, ip: Option<(u64, crate::elf::ElfHeader, Seq<crate::elf::ProgramHeaderInfo>)>|
            {
                &&& crate::loader::headers_read(data@, phs)
                &&& ip matches Some(x) ==> interp_view(interp) matches Some(y) && x.0 == y.0 && crate::elf::elf_header_of(y.1) == Some(x.1)
                    && crate::loader::headers_read(y.1, x.2)
                &&& elf_space_built(file, crate::elf::elf_header_of(data@)->0, phs, ip, layout, loaded)
            };
        assert(loaded.user_stack_top == layout.user_stack_base);
        assert(loaded.auxs@.len() == 22);
    }
    match init_ustack(loaded.user_stack_top, args, envs, &loaded.auxs) {
        Some(s) => Some((loaded, s)),
        None => None,
    }
}

} // verus!
