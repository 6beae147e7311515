//! The initial user stack of a program: its argument and environment strings, the auxiliary
//! vector, the pointer arrays and the argument count, laid out downwards from the stack top.
use vstd::prelude::*;
use crate::loader::AuxEntry;

verus! {

/// Where each part of the initial user stack goes. Writing it is up to the caller: the
/// strings of `args` and `envs`, each followed by a zero byte, at `arg_ptrs` and
/// `env_ptrs`; each auxiliary entry (two words) at `aux_addrs`; each word of `words` at its
/// address.
pub struct StackLayout {
    /// The stack pointer after the layout: the address of the argument count.
    pub sp: u64,
    /// The address of the first argument pointer.
    pub argv_base: u64,
    /// The address of the first environment pointer.
    pub envp_base: u64,
    /// The address of each environment string.
    pub env_ptrs: Vec<u64>,
    /// The address of each argument string.
    pub arg_ptrs: Vec<u64>,
    /// The address of each auxiliary entry.
    pub aux_addrs: Vec<u64>,
    /// The single words to write, as `(address, value)`.
    pub words: Vec<(u64, u64)>,
}

/// `l` lays out, below `user_sp`, the strings `args` and `envs` and `n_aux` auxiliary
/// entries: where each string and entry goes, the words to write, and the stack pointer.
pub open spec fn stack_built(user_sp: u64, args: Seq<Vec<u8>>, envs: Seq<Vec<u8>>, n_aux: int, l: StackLayout) -> bool {
    &&& l.env_ptrs@ == Seq::new(envs.len(), |i: int| env_ptr(user_sp as int, envs, i) as u64)
    &&& l.arg_ptrs@ == Seq::new(args.len(), |i: int| arg_ptr(user_sp as int, args, envs, i) as u64)
    &&& l.aux_addrs@ == Seq::new(n_aux as nat, |i: int| aux_addr(user_sp as int, args, envs, i) as u64)
    &&& l.words@ == stack_words(user_sp as int, args, envs, n_aux)
    &&& l.envp_base == envp_base(user_sp as int, args, envs, n_aux)
    &&& l.argv_base == argv_base(user_sp as int, args, envs, n_aux)
    &&& l.sp == argv_base(user_sp as int, args, envs, n_aux) - 8
    &&& l.sp == user_sp - stack_size(args, envs, n_aux)
}

/// The bytes that the first `k` strings of `strs` take, each with its zero byte.
pub open spec fn strings_size(strs: Seq<Vec<u8>>, k: int) -> int
    decreases k,
{
    if k <= 0 {
        0
    } else {
        strings_size(strs, k - 1) + strs[k - 1].len() + 1
    }
}

/// The size of what goes below the strings: the zero word that ends the auxiliary vector,
/// its `n_aux` entries of two words, the zero word that ends the environment pointers, the
/// pointers, the zero word that ends the argument pointers, the pointers and the count.
pub open spec fn tables_size(n_args: int, n_envs: int, n_aux: int) -> int {
    8 + 16 * n_aux + 8 + 8 * n_envs + 8 + 8 * n_args + 8
}

/// The whole size of the initial stack.
pub open spec fn stack_size(args: Seq<Vec<u8>>, envs: Seq<Vec<u8>>, n_aux: int) -> int {
    strings_size(envs, envs.len() as int) + strings_size(args, args.len() as int) + tables_size(
        args.len() as int,
        envs.len() as int,
        n_aux,
    )
}

/// The address of environment string `i`: the environment strings go down from `top`,
/// the first one highest.
pub open spec fn env_ptr(top: int, envs: Seq<Vec<u8>>, i: int) -> int {
    top - strings_size(envs, i + 1)
}

/// The address just below the environment strings, where the argument strings start.
pub open spec fn args_top(top: int, envs: Seq<Vec<u8>>) -> int {
    top - strings_size(envs, envs.len() as int)
}

/// The address of argument string `i`, the first one highest.
pub open spec fn arg_ptr(top: int, args: Seq<Vec<u8>>, envs: Seq<Vec<u8>>, i: int) -> int {
    args_top(top, envs) - strings_size(args, i + 1)
}

/// The address of the zero word that ends the auxiliary vector, just below the strings.
pub open spec fn aux_top(top: int, args: Seq<Vec<u8>>, envs: Seq<Vec<u8>>) -> int {
    args_top(top, envs) - strings_size(args, args.len() as int) - 8
}

/// The address of auxiliary entry `i`: the entries go down from the zero word, the first one
/// highest.
pub open spec fn aux_addr(top: int, args: Seq<Vec<u8>>, envs: Seq<Vec<u8>>, i: int) -> int {
    aux_top(top, args, envs) - 16 * (i + 1)
}

/// The address of the first environment pointer.
pub open spec fn envp_base(top: int, args: Seq<Vec<u8>>, envs: Seq<Vec<u8>>, n_aux: int) -> int {
    aux_top(top, args, envs) - 16 * n_aux - 8 - 8 * envs.len()
}

/// The address of the first argument pointer.
pub open spec fn argv_base(top: int, args: Seq<Vec<u8>>, envs: Seq<Vec<u8>>, n_aux: int) -> int {
    envp_base(top, args, envs, n_aux) - 8 - 8 * args.len()
}

/// The single words of the initial stack, in the order they are laid out: the zero word
/// above the auxiliary entries, the zero word below them, the environment pointers, their
/// zero word, the argument pointers and the argument count.
pub open spec fn stack_words(top: int, args: Seq<Vec<u8>>, envs: Seq<Vec<u8>>, n_aux: int) -> Seq<(u64, u64)> {
    let at = aux_top(top, args, envs);
    let eb = envp_base(top, args, envs, n_aux);
    let ab = argv_base(top, args, envs, n_aux);
    seq![(at as u64, 0u64), ((at - 16 * n_aux - 8) as u64, 0u64)] + Seq::new(
        envs.len(),
        |i: int| ((eb + 8 * i) as u64, env_ptr(top, envs, i) as u64),
    ) + seq![((eb - 8) as u64, 0u64)] + Seq::new(
        args.len(),
        |i: int| ((ab + 8 * i) as u64, arg_ptr(top, args, envs, i) as u64),
    ) + seq![((ab - 8) as u64, args.len() as u64)]
}

/// The strings take no less room when there are more of them.
proof fn lemma_strings_size_mono(strs: Seq<Vec<u8>>, k: int, m: int)
    requires
        0 <= k <= m <= strs.len(),
    ensures
        0 <= strings_size(strs, k) <= strings_size(strs, m),
    decreases m - k,
{
    if k < m {
        lemma_strings_size_mono(strs, k, m - 1);
    } else {
        lemma_strings_size_nonneg(strs, k);
    }
}

/// The strings take no negative room.
proof fn lemma_strings_size_nonneg(strs: Seq<Vec<u8>>, k: int)
    ensures
        0 <= strings_size(strs, k),
    decreases k,
{
    if k > 0 {
        lemma_strings_size_nonneg(strs, k - 1);
    }
}


/// The parts of the initial stack lie one below the other without overlap: from the stack
/// pointer up, the argument count, the argument pointers and their zero word, the
/// environment pointers and their zero word, the auxiliary entries and their zero word, the
/// argument strings and the environment strings up to the top; each string (with its zero
/// byte) lies in the room of its kind, and the whole takes `stack_size` bytes.
pub proof fn law_stack_parts_ordered(top: int, args: Seq<Vec<u8>>, envs: Seq<Vec<u8>>, n_aux: int)
    requires
        n_aux >= 0,
    ensures
        argv_base(top, args, envs, n_aux) + 8 * args.len() + 8 == envp_base(top, args, envs, n_aux),
        envp_base(top, args, envs, n_aux) + 8 * envs.len() + 8 + 16 * n_aux == aux_top(top, args, envs),
        aux_top(top, args, envs) + 8 == args_top(top, envs) - strings_size(args, args.len() as int),
        args_top(top, envs) <= top,
        top - (argv_base(top, args, envs, n_aux) - 8) == stack_size(args, envs, n_aux),
        forall|i: int|
            0 <= i < args.len() ==> aux_top(top, args, envs) + 8 <= #[trigger] arg_ptr(top, args, envs, i) && arg_ptr(
                top,
                args,
                envs,
                i,
            ) + args[i].len() + 1 <= args_top(top, envs),
        forall|i: int|
            0 <= i < envs.len() ==> args_top(top, envs) <= #[trigger] env_ptr(top, envs, i) && env_ptr(top, envs, i)
                + envs[i].len() + 1 <= top,
{
    lemma_strings_size_nonneg(envs, envs.len() as int);
    assert forall|i: int| 0 <= i < args.len() implies aux_top(top, args, envs) + 8 <= #[trigger] arg_ptr(
        top,
        args,
        envs,
        i,
    ) && arg_ptr(top, args, envs, i) + args[i].len() + 1 <= args_top(top, envs) by {
        lemma_strings_size_mono(args, i + 1, args.len() as int);
        lemma_strings_size_nonneg(args, i);
    }
    assert forall|i: int| 0 <= i < envs.len() implies args_top(top, envs) <= #[trigger] env_ptr(top, envs, i)
        && env_ptr(top, envs, i) + envs[i].len() + 1 <= top by {
        lemma_strings_size_mono(envs, i + 1, envs.len() as int);
        lemma_strings_size_nonneg(envs, i);
    }
}

/// Lays out strings `strs` downwards from `top`, the first highest; their addresses, and the
/// address below the last one. `None` when they do not fit above address 0.
fn place_strings(top: u64, strs: &Vec<Vec<u8>>) -> (r: Option<(Vec<u64>, u64)>)
    ensures
        r is Some <==> strings_size(strs@, strs@.len() as int) <= top,
        r matches Some((ptrs, bottom)) ==> {
            &&& ptrs@ == Seq::new(strs@.len(), |i: int| (top - strings_size(strs@, i + 1)) as u64)
            &&& bottom == top - strings_size(strs@, strs@.len() as int)
        },
{
    let mut sp = top;
    let mut ptrs: Vec<u64> = Vec::new();
    let mut i: usize = 0;
    while i < strs.len()
        invariant
            i <= strs@.len(),
            sp == top - strings_size(strs@, i as int),
            ptrs@ == Seq::new(i as nat, |j: int| (top - strings_size(strs@, j + 1)) as u64),
        decreases strs@.len() - i,
    {
        let len = strs[i].len() as u64;
        if len >= sp {
            proof {
                lemma_strings_size_mono(strs@, i as int + 1, strs@.len() as int);
            }
            return None;
        }
        sp = sp - len - 1;
        ptrs.push(sp);
        i = i + 1;
        proof {
            assert(ptrs@ =~= Seq::new(i as nat, |j: int| (top - strings_size(strs@, j + 1)) as u64));
        }
    }
    Some((ptrs, sp))
}

/// Lays out the initial user stack below `user_sp` (see `StackLayout`): the environment
/// strings from the top down, then the argument strings, the zero word and the entries of
/// the auxiliary vector `auxv` (the first one highest), a zero word, the environment
/// pointers, a zero word, the argument pointers and the argument count, with no padding.
/// `None` when it does not fit above address 0.
pub fn init_ustack(user_sp: u64, args: &Vec<Vec<u8>>, envs: &Vec<Vec<u8>>, auxv: &Vec<AuxEntry>) -> (r: Option<
    StackLayout,
>)
    ensures
        r is Some <==> stack_size(args@, envs@, auxv@.len() as int) <= user_sp,
        r matches Some(l) ==> stack_built(user_sp, args@, envs@, auxv@.len() as int, l),
{
    let (env_ptrs, args_top_addr) = match place_strings(user_sp, envs) {
        Some(p) => p,
        None => {
            proof {
                lemma_strings_size_nonneg(args@, args@.len() as int);
            }
            return None;
        },
    };
    let (arg_ptrs, strings_bottom) = match place_strings(args_top_addr, args) {
        Some(p) => p,
        None => {
            return None;
        },
    };
    let n_aux = auxv.len();
    let n_envs = envs.len();
    let n_args = args.len();
    let tables: u128 = 32 + 16 * (n_aux as u128) + 8 * (n_envs as u128) + 8 * (n_args as u128);
    if tables > strings_bottom as u128 {
        return None;
    }
    let ghost top = user_sp as int;
    let aux_top_addr = strings_bottom - 8;
    let mut words: Vec<(u64, u64)> = Vec::new();
    words.push((aux_top_addr, 0));
    let mut aux_addrs: Vec<u64> = Vec::new();
    let mut i: usize = 0;
    while i < n_aux
        invariant
            n_aux == auxv@.len(),
            i <= n_aux,
            aux_top_addr == aux_top(top, args@, envs@),
            aux_top_addr >= 16 * n_aux + 24,
            aux_addrs@ == Seq::new(i as nat, |j: int| aux_addr(top, args@, envs@, j) as u64),
        decreases n_aux - i,
    {
        aux_addrs.push(aux_top_addr - 16 * (i as u64 + 1));
        i = i + 1;
        proof {
            assert(aux_addrs@ =~= Seq::new(i as nat, |j: int| aux_addr(top, args@, envs@, j) as u64));
        }
    }
    let aux_bottom = aux_top_addr - 16 * (n_aux as u64);
    words.push((aux_bottom - 8, 0));
    let envp = aux_bottom - 8 - 8 * (n_envs as u64);
    let ghost w0 = words@;
    let mut i: usize = 0;
    while i < n_envs
        invariant
            n_envs == envs@.len(),
            i <= n_envs,
            envp == envp_base(top, args@, envs@, n_aux as int),
            envp + 8 * n_envs <= u64::MAX,
            env_ptrs@ == Seq::new(envs@.len(), |j: int| (top - strings_size(envs@, j + 1)) as u64),
            words@ == w0 + Seq::new(i as nat, |j: int| ((envp + 8 * j) as u64, env_ptr(top, envs@, j) as u64)),
        decreases n_envs - i,
    {
        words.push((envp + 8 * (i as u64), env_ptrs[i]));
        i = i + 1;
        proof {
            assert(words@ =~= w0 + Seq::new(
                i as nat,
                |j: int| ((envp + 8 * j) as u64, env_ptr(top, envs@, j) as u64),
            ));
        }
    }
    words.push((envp - 8, 0));
    let argv = envp - 8 - 8 * (n_args as u64);
    let ghost w1 = words@;
    let mut i: usize = 0;
    while i < n_args
        invariant
            n_args == args@.len(),
            i <= n_args,
            argv == argv_base(top, args@, envs@, n_aux as int),
            argv + 8 * n_args <= u64::MAX,
            arg_ptrs@ == Seq::new(args@.len(), |j: int| (args_top_addr - strings_size(args@, j + 1)) as u64),
            args_top_addr == args_top(top, envs@),
            words@ == w1 + Seq::new(i as nat, |j: int| ((argv + 8 * j) as u64, arg_ptr(top, args@, envs@, j) as u64)),
        decreases n_args - i,
    {
        words.push((argv + 8 * (i as u64), arg_ptrs[i]));
        i = i + 1;
        proof {
            assert(words@ =~= w1 + Seq::new(
                i as nat,
                |j: int| ((argv + 8 * j) as u64, arg_ptr(top, args@, envs@, j) as u64),
            ));
        }
    }
    words.push((argv - 8, n_args as u64));
    proof {
        assert(words@ =~= stack_words(top, args@, envs@, n_aux as int));
        assert(arg_ptrs@ =~= Seq::new(args@.len(), |i: int| arg_ptr(top, args@, envs@, i) as u64));
        assert(env_ptrs@ =~= Seq::new(envs@.len(), |i: int| env_ptr(top, envs@, i) as u64));
    }
    Some(
        StackLayout {
            sp: argv - 8,
            argv_base: argv,
            envp_base: envp,
            env_ptrs,
            arg_ptrs,
            aux_addrs,
            words,
        },
    )
}

} // verus!
