//! Patterns prepared for a pattern-matching kernel: for every pattern the
//! source text of a kernel function that looks for it in a batch of events.

use vstd::prelude::*;
use crate::outside::alphanumeric;
use crate::outside::is_alphanumeric;
use crate::text::contains;
use crate::text::contains_text;

verus! {

/// How a kernel is laid out on the device.
#[derive(Clone, Copy, Debug, PartialEq, Eq, Structural)]
pub struct CudaKernelConfig {
    pub block_size: u32,
    pub grid_size: u32,
    pub shared_memory_size: usize,
    pub max_threads_per_block: u32,
}

/// How a layer of a model answers.
#[derive(Clone, Copy, Debug, PartialEq, Eq, Structural, Hash)]
pub enum ActivationFunction {
    ReLU,
    Sigmoid,
    Tanh,
    Softmax,
}

/// The shape of a model.
#[derive(Clone, Debug, PartialEq, Eq)]
pub struct ModelArchitecture {
    pub input_size: usize,
    pub hidden_layers: Vec<usize>,
    pub output_size: usize,
    pub activation_function: ActivationFunction,
}

/// A pattern with the kernel source generated for it.
#[derive(Debug, PartialEq, Eq)]
pub struct CompiledPattern {
    pub pattern: String,
    pub gpu_kernel: String,
    pub match_count: u64,
}

/// What a `CompiledPattern` holds, as mathematical values.
pub struct CompiledPatternView {
    pub pattern: Seq<char>,
    pub gpu_kernel: Seq<char>,
    pub match_count: u64,
}

impl DeepView for CompiledPattern {
    type V = CompiledPatternView;

    open spec fn deep_view(&self) -> CompiledPatternView {
        CompiledPatternView {
            pattern: self.pattern@,
            gpu_kernel: self.gpu_kernel@,
            match_count: self.match_count,
        }
    }
}

impl View for CompiledPattern {
    type V = CompiledPatternView;

    open spec fn view(&self) -> CompiledPatternView {
        self.deep_view()
    }
}

/// A pattern as part of a function name: every character that is neither a
/// letter nor a number becomes an underscore.
pub open spec fn sanitized(pattern: Seq<char>) -> Seq<char> {
    Seq::new(
        pattern.len(),
        |i: int|
            if alphanumeric(pattern[i]) {
                pattern[i]
            } else {
                '_'
            },
    )
}

/// Turns a pattern into part of a function name.
pub fn sanitize(pattern: &str) -> (r: String)
    ensures
        r@ == sanitized(pattern@),
{
    proof {
        reveal_strlit("_");
    }
    let n = pattern.unicode_len();
    let mut out = String::new();
    let mut i: usize = 0;
    while i < n
        invariant
            i <= n,
            n == pattern@.len(),
            "_"@ == seq!['_'],
            out@ == sanitized(pattern@).subrange(0, i as int),
        decreases n - i,
    {
        let c = pattern.get_char(i);
        let ghost before = out@;
        if is_alphanumeric(c) {
            out.append(pattern.substring_char(i, i + 1));
            proof {
                assert(pattern@.subrange(i as int, i as int + 1) =~= seq![c]);
            }
        } else {
            out.append("_");
        }
        proof {
            assert(out@ =~= sanitized(pattern@).subrange(0, i as int + 1));
        }
        i += 1;
    }
    proof {
        assert(sanitized(pattern@).subrange(0, n as int) =~= sanitized(pattern@));
    }
    out
}

/// The kernel's matching code for a pattern that holds `UNION SELECT`.
pub open spec fn sql_logic() -> Seq<char> {
    "\n    // SQL Injection detection\n    for (int i = 0; i < strlen(event) - 10; i++) {\n        if (strncmp(event + i, \"UNION SELECT\", 12) == 0) {\n            match = 1;\n            break;\n        }\n    }\n"@
}

/// The kernel's matching code for a pattern that holds `<script>`.
pub open spec fn xss_logic() -> Seq<char> {
    "\n    // XSS detection\n    for (int i = 0; i < strlen(event) - 8; i++) {\n        if (strncmp(event + i, \"<script>\", 8) == 0) {\n            match = 1;\n            break;\n        }\n    }\n"@
}

/// The kernel's matching code for any other pattern, before and after the
/// pattern itself.
pub open spec fn generic_logic(pattern: Seq<char>) -> Seq<char> {
    "\n    // Generic pattern matching\n    if (strstr(event, \""@ + pattern
        + "\") != NULL) {{\n        match = 1;\n    }}\n"@
}

/// The matching code of the kernel generated for a pattern.
pub open spec fn pattern_logic(pattern: Seq<char>) -> Seq<char> {
    if contains_text(pattern, "UNION SELECT"@) {
        sql_logic()
    } else if contains_text(pattern, "<script>"@) {
        xss_logic()
    } else {
        generic_logic(pattern)
    }
}

/// The source of the kernel generated for a pattern.
pub open spec fn kernel_source(pattern: Seq<char>) -> Seq<char> {
    "\n__global__ void pattern_match_"@ + sanitized(pattern)
        + "(const char* events, int* results, int event_count) {\n    int idx = blockIdx.x * blockDim.x + threadIdx.x;\n    if (idx >= event_count) return;\n    \n    const char* event = events + idx * MAX_EVENT_LENGTH;\n    int match = 0;\n    \n    // GPU-optimized pattern matching\n    "@
        + pattern_logic(pattern) + "\n    \n    results[idx] = match;\n}\n"@
}

/// The pattern compiled for the kernel.
pub open spec fn compiled(pattern: Seq<char>) -> CompiledPatternView {
    CompiledPatternView { pattern, gpu_kernel: kernel_source(pattern), match_count: 0 }
}

/// The patterns of a list, each compiled for the kernel.
pub open spec fn compiled_all(patterns: Seq<Seq<char>>) -> Seq<CompiledPatternView> {
    Seq::new(patterns.len(), |i: int| compiled(patterns[i]))
}

/// The pattern-matching kernel with the patterns compiled for it.
pub struct PatternMatchingKernel {
    pub config: CudaKernelConfig,
    pub patterns: Vec<String>,
    pub compiled_patterns: Vec<CompiledPattern>,
}

impl PatternMatchingKernel {
    /// A kernel without patterns: blocks of 256 threads in a grid of 1024,
    /// 16 KiB of shared memory, 1024 threads in a block at most.
    pub fn new() -> (r: Self)
        ensures
            r.config == (CudaKernelConfig {
                block_size: 256,
                grid_size: 1024,
                shared_memory_size: 16384,
                max_threads_per_block: 1024,
            }),
            r.patterns@.len() == 0,
            r.compiled_patterns@.len() == 0,
    {
        PatternMatchingKernel {
            config: CudaKernelConfig {
                block_size: 256,
                grid_size: 1024,
                shared_memory_size: 16384,
                max_threads_per_block: 1024,
            },
            patterns: Vec::new(),
            compiled_patterns: Vec::new(),
        }
    }

    /// Compiles patterns for the kernel and adds them, in their order, to
    /// those compiled before.
    pub fn compile_patterns(&mut self, patterns: &[String])
        ensures
            final(self).config == old(self).config,
            final(self).patterns == old(self).patterns,
            final(self).compiled_patterns.deep_view() == old(self).compiled_patterns.deep_view()
                + compiled_all(patterns.deep_view()),
    {
        let mut i: usize = 0;
        let ghost base = self.compiled_patterns.deep_view();
        proof {
            assert(self.compiled_patterns.deep_view() =~= base + compiled_all(
                patterns.deep_view(),
            ).subrange(0, 0));
        }
        while i < patterns.len()
            invariant
                i <= patterns@.len(),
                self.config == old(self).config,
                self.patterns == old(self).patterns,
                self.compiled_patterns.deep_view() == base + compiled_all(
                    patterns.deep_view(),
                ).subrange(0, i as int),
            decreases patterns@.len() - i,
        {
            let one = self.compile_single_pattern(patterns[i].as_str());
            let ghost before = self.compiled_patterns.deep_view();
            self.compiled_patterns.push(one);
            proof {
                assert(patterns.deep_view()[i as int] == patterns@[i as int]@);
                assert(self.compiled_patterns.deep_view() =~= before.push(
                    compiled(patterns@[i as int]@),
                ));
                assert(self.compiled_patterns.deep_view() =~= base + compiled_all(
                    patterns.deep_view(),
                ).subrange(0, i as int + 1));
            }
            i += 1;
        }
        proof {
            assert(compiled_all(patterns.deep_view()).subrange(0, patterns@.len() as int)
                =~= compiled_all(patterns.deep_view()));
        }
    }

    /// Compiles one pattern for the kernel.
    pub fn compile_single_pattern(&self, pattern: &str) -> (r: CompiledPattern)
        ensures
            r@ == compiled(pattern@),
    {
        let gpu_kernel = self.generate_gpu_kernel(pattern);
        CompiledPattern { pattern: String::from_str(pattern), gpu_kernel, match_count: 0 }
    }

    /// Generates the source of the kernel for a pattern.
    pub fn generate_gpu_kernel(&self, pattern: &str) -> (r: String)
        ensures
            r@ == kernel_source(pattern@),
    {
        let mut source = String::from_str("\n__global__ void pattern_match_");
        let name = sanitize(pattern);
        source.append(name.as_str());
        source.append(
            "(const char* events, int* results, int event_count) {\n    int idx = blockIdx.x * blockDim.x + threadIdx.x;\n    if (idx >= event_count) return;\n    \n    const char* event = events + idx * MAX_EVENT_LENGTH;\n    int match = 0;\n    \n    // GPU-optimized pattern matching\n    ",
        );
        let logic = self.generate_pattern_logic(pattern);
        source.append(logic.as_str());
        source.append("\n    \n    results[idx] = match;\n}\n");
        source
    }

    /// Generates the matching code of the kernel for a pattern.
    pub fn generate_pattern_logic(&self, pattern: &str) -> (r: String)
        ensures
            r@ == pattern_logic(pattern@),
    {
        if contains(pattern, "UNION SELECT") {
            String::from_str(
                "\n    // SQL Injection detection\n    for (int i = 0; i < strlen(event) - 10; i++) {\n        if (strncmp(event + i, \"UNION SELECT\", 12) == 0) {\n            match = 1;\n            break;\n        }\n    }\n",
            )
        } else if contains(pattern, "<script>") {
            String::from_str(
                "\n    // XSS detection\n    for (int i = 0; i < strlen(event) - 8; i++) {\n        if (strncmp(event + i, \"<script>\", 8) == 0) {\n            match = 1;\n            break;\n        }\n    }\n",
            )
        } else {
            let mut logic = String::from_str(
                "\n    // Generic pattern matching\n    if (strstr(event, \"",
            );
            logic.append(pattern);
            logic.append("\") != NULL) {{\n        match = 1;\n    }}\n");
            logic
        }
    }
}

} // verus!
