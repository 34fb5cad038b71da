pub mod registers;
pub mod memory;
pub mod instructions;
pub mod simulator;
pub mod disassembly;
pub mod pc_manager;
pub mod loop_detector;
pub mod register_allocator;
pub mod memory_dump;
