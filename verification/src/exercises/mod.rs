//! Small programming exercises that came with the node: the computation of
//! each, and each program from its input's bytes to its output's bytes.
pub mod cf_1_a;
pub mod cf_50_a;
pub mod cf_158_a;
pub mod cf_158_b;
pub mod cf_112_a;
pub mod cf_71_a;
pub mod spj_1025_2;
pub mod spj_24_1;
pub mod spj_4_1;
pub mod spj_2_1;
pub mod cf_339_a;
pub mod text;
