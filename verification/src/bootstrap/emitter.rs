//! The C99 emitter of the bootstrap compiler.

use vstd::prelude::*;
use crate::bootstrap::ast::FlowDecl;
use crate::bootstrap::registry::{PrimitiveRegistry, RegistryV};

verus! {

/// The C99 program that the emitter writes: device stubs for every
/// primitive family and a `main` that runs one step of each.
pub open spec fn c99_runtime() -> Seq<char> {
    "#include <stdio.h>\n"@
        + "#include <stdlib.h>\n"@
        + "#include <stdint.h>\n"@
        + "#include <math.h>\n\n"@
        + "typedef struct { int qasm_fd; int mea_fd; float* gpu_mem; } HybridDeviceContext;\n\n"@
        + "void cpu_dense_forward(const float* in, float* out, int d_in, int d_out) {\n"@
        + "    for(int i=0; i<d_out; i++) { out[i] = 0.0f; for(int j=0; j<d_in; j++) out[i] += in[j] * 0.01f; }\n"@
        + "}\n"@
        + "void cpu_dense_backward(const float* g_out, float* g_in, int d_in, int d_out) {\n"@
        + "    for(int j=0; j<d_in; j++) { g_in[j] = 0.0f; for(int i=0; i<d_out; i++) g_in[j] += g_out[i] * 0.01f; }\n"@
        + "}\n"@
        + "void quantum_unitary_apply(int fd, const float* in, float* out, int qubits) { (void)fd; (void)qubits; for(int i=0; i<(1<<qubits); i++) out[i] = in[i]; }\n"@
        + "void quantum_parameter_shift_adjoint(int fd, const float* g_out, float* g_in, int qubits) { (void)fd; (void)qubits; for(int i=0; i<(1<<qubits); i++) g_in[i] = g_out[i]; }\n"@
        + "void organoid_dac_adc_transceive(int fd, const float* in, float* out, int n) { (void)fd; for(int i=0; i<n; i++) out[i] = in[i]; }\n"@
        + "void organoid_adjoint_sensitivity_integrate(int fd, const float* g_out, float* g_in, int n) { (void)fd; for(int i=0; i<n; i++) g_in[i] = g_out[i]; }\n"@
        + "void logic_pack_apply(const uint8_t* in, uint8_t* out, int bits) { (void)bits; for(int i=0; i<bits; i++) out[i] = in[i]; }\n"@
        + "void logic_unpack_adjoint(const uint8_t* g_out, uint8_t* g_in, int bits) { (void)bits; for(int i=0; i<bits; i++) g_in[i] = g_out[i]; }\n"@
        + "int main(void) {\n"@
        + "    HybridDeviceContext dev = {0};\n"@
        + "    float in_t[128] = {0};\n"@
        + "    float out_t[64] = {0};\n"@
        + "    float in_q[4] = {0};\n"@
        + "    float out_q[4] = {0};\n"@
        + "    float in_o[64] = {0};\n"@
        + "    float out_o[64] = {0};\n"@
        + "    uint8_t in_l[8] = {0};\n"@
        + "    uint8_t out_l[8] = {0};\n"@
        + "    cpu_dense_forward(in_t, out_t, 128, 64);\n"@
        + "    quantum_unitary_apply(dev.qasm_fd, in_q, out_q, 2);\n"@
        + "    organoid_dac_adc_transceive(dev.mea_fd, in_o, out_o, 64);\n"@
        + "    logic_pack_apply(in_l, out_l, 8);\n"@
        + "    printf(\"Intelligence categorical runtime ready\\n\");\n"@
        + "    return 0;\n"@
        + "}\n"@
}

/// Emits C99 code for a program.
pub struct C99Emitter<'a> {
    registry: &'a PrimitiveRegistry,
}

impl<'a> C99Emitter<'a> {
    /// The registry the emitter consults.
    pub closed spec fn registry_view(&self) -> RegistryV {
        self.registry@
    }

    /// An emitter over `registry`.
    pub fn new(registry: &'a PrimitiveRegistry) -> (r: Self)
        ensures
            r.registry_view() == registry@,
    {
        Self { registry }
    }

    /// The C99 runtime program. It does not depend on the declarations.
    pub fn emit(&self, decls: &[FlowDecl]) -> (r: String)
        ensures
            r@ == c99_runtime(),
    {
        let _ = decls;
        let mut c_code = String::new();
        c_code.append("#include <stdio.h>\n");
        c_code.append("#include <stdlib.h>\n");
        c_code.append("#include <stdint.h>\n");
        c_code.append("#include <math.h>\n\n");
        c_code.append("typedef struct { int qasm_fd; int mea_fd; float* gpu_mem; } HybridDeviceContext;\n\n");
        c_code.append("void cpu_dense_forward(const float* in, float* out, int d_in, int d_out) {\n");
        c_code.append("    for(int i=0; i<d_out; i++) { out[i] = 0.0f; for(int j=0; j<d_in; j++) out[i] += in[j] * 0.01f; }\n");
        c_code.append("}\n");
        c_code.append("void cpu_dense_backward(const float* g_out, float* g_in, int d_in, int d_out) {\n");
        c_code.append("    for(int j=0; j<d_in; j++) { g_in[j] = 0.0f; for(int i=0; i<d_out; i++) g_in[j] += g_out[i] * 0.01f; }\n");
        c_code.append("}\n");
        c_code.append("void quantum_unitary_apply(int fd, const float* in, float* out, int qubits) { (void)fd; (void)qubits; for(int i=0; i<(1<<qubits); i++) out[i] = in[i]; }\n");
        c_code.append("void quantum_parameter_shift_adjoint(int fd, const float* g_out, float* g_in, int qubits) { (void)fd; (void)qubits; for(int i=0; i<(1<<qubits); i++) g_in[i] = g_out[i]; }\n");
        c_code.append("void organoid_dac_adc_transceive(int fd, const float* in, float* out, int n) { (void)fd; for(int i=0; i<n; i++) out[i] = in[i]; }\n");
        c_code.append("void organoid_adjoint_sensitivity_integrate(int fd, const float* g_out, float* g_in, int n) { (void)fd; for(int i=0; i<n; i++) g_in[i] = g_out[i]; }\n");
        c_code.append("void logic_pack_apply(const uint8_t* in, uint8_t* out, int bits) { (void)bits; for(int i=0; i<bits; i++) out[i] = in[i]; }\n");
        c_code.append("void logic_unpack_adjoint(const uint8_t* g_out, uint8_t* g_in, int bits) { (void)bits; for(int i=0; i<bits; i++) g_in[i] = g_out[i]; }\n");
        c_code.append("int main(void) {\n");
        c_code.append("    HybridDeviceContext dev = {0};\n");
        c_code.append("    float in_t[128] = {0};\n");
        c_code.append("    float out_t[64] = {0};\n");
        c_code.append("    float in_q[4] = {0};\n");
        c_code.append("    float out_q[4] = {0};\n");
        c_code.append("    float in_o[64] = {0};\n");
        c_code.append("    float out_o[64] = {0};\n");
        c_code.append("    uint8_t in_l[8] = {0};\n");
        c_code.append("    uint8_t out_l[8] = {0};\n");
        c_code.append("    cpu_dense_forward(in_t, out_t, 128, 64);\n");
        c_code.append("    quantum_unitary_apply(dev.qasm_fd, in_q, out_q, 2);\n");
        c_code.append("    organoid_dac_adc_transceive(dev.mea_fd, in_o, out_o, 64);\n");
        c_code.append("    logic_pack_apply(in_l, out_l, 8);\n");
        c_code.append("    printf(\"Intelligence categorical runtime ready\\n\");\n");
        c_code.append("    return 0;\n");
        c_code.append("}\n");
        assert(c_code@ =~= c99_runtime());
        c_code
    }
}

} // verus!
