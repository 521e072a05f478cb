use chip8::cpu::CPU;
use chip8::graphics_buffer::GraphicsBuffer;
use chip8::ram::RAM;

#[test]
fn timer_test() {
    let ram = RAM::new();
    let mut cpu = CPU::new(ram);
    cpu.sound_timer = 2;
    cpu.delay_timer = 2;
    cpu.timer();
    assert_eq!(1, cpu.sound_timer);
    assert_eq!(1, cpu.delay_timer);
    cpu.timer();
    assert_eq!(0, cpu.sound_timer);
    assert_eq!(0, cpu.delay_timer);
    cpu.timer();
    assert_eq!(0, cpu.sound_timer);
    assert_eq!(0, cpu.delay_timer);
}

#[test]
fn cls_test() {
    let mut ram = RAM::new();
    ram.write_word(0x200, 0x00E0);
    let mut cpu = CPU::new(ram);
    let mut gfx = GraphicsBuffer::new();
    gfx.toggle(0, 0);
    gfx.toggle(0xF, 0xF);
    let _ = cpu.cycle(&mut gfx);
    assert_eq!(false, gfx.get(0, 0));
    assert_eq!(false, gfx.get(0xF, 0xF));
    assert_eq!(true, cpu.draw_flag);
}

#[test]
fn jp_test() {
    let mut ram = RAM::new();
    ram.write_word(0x200, 0x1FFF);
    let mut cpu = CPU::new(ram);
    let mut gfx = GraphicsBuffer::new();
    let _ = cpu.cycle(&mut gfx);
    assert_eq!(0xFFF, cpu.program_counter);
}

#[test]
fn call_test() {
    let mut ram = RAM::new();
    ram.write_word(0x200, 0x2069);
    let mut cpu = CPU::new(ram);
    let mut gfx = GraphicsBuffer::new();
    let _ = cpu.cycle(&mut gfx);
    assert_eq!(0x202, cpu.stack[1]);
    assert_eq!(0x069, cpu.program_counter);
    assert_eq!(1, cpu.stack_pointer);
}

#[test]
fn se_imm_eq_test() {
    let mut ram = RAM::new();
    ram.write_word(0x200, 0x3781);
    let mut cpu = CPU::new(ram);
    cpu.v[7] = 0x81;
    let mut gfx = GraphicsBuffer::new();
    let _ = cpu.cycle(&mut gfx);
    assert_eq!(0x204, cpu.program_counter);
}

#[test]
fn se_imm_neq_test() {
    let mut ram = RAM::new();
    ram.write_word(0x200, 0x3781);
    let mut cpu = CPU::new(ram);
    cpu.v[7] = 0x80;
    let mut gfx = GraphicsBuffer::new();
    let _ = cpu.cycle(&mut gfx);
    assert_eq!(0x202, cpu.program_counter);
}

#[test]
fn sne_eq_test() {
    let mut ram = RAM::new();
    ram.write_word(0x200, 0x4781);
    let mut cpu = CPU::new(ram);
    cpu.v[7] = 0x81;
    let mut gfx = GraphicsBuffer::new();
    let _ = cpu.cycle(&mut gfx);
    assert_eq!(0x202, cpu.program_counter);
}

#[test]
fn sne_neq_test() {
    let mut ram = RAM::new();
    ram.write_word(0x200, 0x4781);
    let mut cpu = CPU::new(ram);
    cpu.v[7] = 0x80;
    let mut gfx = GraphicsBuffer::new();
    let _ = cpu.cycle(&mut gfx);
    assert_eq!(0x204, cpu.program_counter);
}

#[test]
fn se_mem_eq_test() {
    let mut ram = RAM::new();
    ram.write_word(0x200, 0x55C0);
    let mut cpu = CPU::new(ram);
    cpu.v[5] = 0xA2;
    cpu.v[0xC] = 0xA2;
    let mut gfx = GraphicsBuffer::new();
    let _ = cpu.cycle(&mut gfx);
    assert_eq!(0x204, cpu.program_counter);
}

#[test]
fn se_mem_neq_test() {
    let mut ram = RAM::new();
    ram.write_word(0x200, 0x55C0);
    let mut cpu = CPU::new(ram);
    cpu.v[5] = 0xA2;
    cpu.v[0xC] = 0xA3;
    let mut gfx = GraphicsBuffer::new();
    let _ = cpu.cycle(&mut gfx);
    assert_eq!(0x202, cpu.program_counter);
}

#[test]
fn ld_imm_test() {
    let mut ram = RAM::new();
    ram.write_word(0x200, 0x6A22);
    let mut cpu = CPU::new(ram);
    let mut gfx = GraphicsBuffer::new();
    let _ = cpu.cycle(&mut gfx);
    assert_eq!(0x22, cpu.v[0xA]);
}

#[test]
fn add_imm_test() {
    let mut ram = RAM::new();
    ram.write_word(0x200, 0x7756);
    let mut cpu = CPU::new(ram);
    let mut gfx = GraphicsBuffer::new();
    cpu.v[7] = 0x37;
    let _ = cpu.cycle(&mut gfx);
    assert_eq!(0x8D, cpu.v[7]);
}

#[test]
fn add_imm_overflow_test() {
    let mut ram = RAM::new();
    ram.write_word(0x200, 0x77EE);
    let mut cpu = CPU::new(ram);
    let mut gfx = GraphicsBuffer::new();
    cpu.v[7] = 0xEE;
    let _ = cpu.cycle(&mut gfx);
    assert_eq!(0xDC, cpu.v[7]);
}

#[test]
fn ld_mem_test() {
    let mut ram = RAM::new();
    ram.write_word(0x200, 0x8E20);
    let mut cpu = CPU::new(ram);
    let mut gfx = GraphicsBuffer::new();
    cpu.v[2] = 0xD1;
    let _ = cpu.cycle(&mut gfx);
    assert_eq!(0xD1, cpu.v[0xE]);
}

#[test]
fn or_test() {
    let mut ram = RAM::new();
    ram.write_word(0x200, 0x8CE1);
    let mut cpu = CPU::new(ram);
    let mut gfx = GraphicsBuffer::new();
    cpu.v[0xC] = 0x33;
    cpu.v[0xE] = 0x55;
    let _ = cpu.cycle(&mut gfx);
    assert_eq!(0x77, cpu.v[0xC]);
}

#[test]
fn and_test() {
    let mut ram = RAM::new();
    ram.write_word(0x200, 0x8CE2);
    let mut cpu = CPU::new(ram);
    let mut gfx = GraphicsBuffer::new();
    cpu.v[0xC] = 0x33;
    cpu.v[0xE] = 0x55;
    let _ = cpu.cycle(&mut gfx);
    assert_eq!(0x11, cpu.v[0xC]);
}

#[test]
fn xor_test() {
    let mut ram = RAM::new();
    ram.write_word(0x200, 0x8CE3);
    let mut cpu = CPU::new(ram);
    let mut gfx = GraphicsBuffer::new();
    cpu.v[0xC] = 0x33;
    cpu.v[0xE] = 0x55;
    let _ = cpu.cycle(&mut gfx);
    assert_eq!(0x66, cpu.v[0xC]);
}

#[test]
fn add_mem_test() {
    let mut ram = RAM::new();
    ram.write_word(0x200, 0x8BC4);
    let mut cpu = CPU::new(ram);
    let mut gfx = GraphicsBuffer::new();
    cpu.v[0xB] = 0x45;
    cpu.v[0xC] = 0x67;
    let _ = cpu.cycle(&mut gfx);
    assert_eq!(0xAC, cpu.v[0xB]);
    assert_eq!(0, cpu.v[0xF]);
}

#[test]
fn add_mem_overflow_test() {
    let mut ram = RAM::new();
    ram.write_word(0x200, 0x8BC4);
    let mut cpu = CPU::new(ram);
    let mut gfx = GraphicsBuffer::new();
    cpu.v[0xB] = 0xEC;
    cpu.v[0xC] = 0x34;
    let _ = cpu.cycle(&mut gfx);
    assert_eq!(0x20, cpu.v[0xB]);
    assert_eq!(1, cpu.v[0xF]);
}

#[test]
fn sub_no_borrow_test() {
    let mut ram = RAM::new();
    ram.write_word(0x200, 0x8BC5);
    let mut cpu = CPU::new(ram);
    let mut gfx = GraphicsBuffer::new();
    cpu.v[0xB] = 0x3A;
    cpu.v[0xC] = 0x24;
    let _ = cpu.cycle(&mut gfx);
    assert_eq!(0x16, cpu.v[0xB]);
    assert_eq!(1, cpu.v[0xF]);
}

#[test]
fn sub_borrow_test() {
    let mut ram = RAM::new();
    ram.write_word(0x200, 0x8BC5);
    let mut cpu = CPU::new(ram);
    let mut gfx = GraphicsBuffer::new();
    cpu.v[0xB] = 0x5C;
    cpu.v[0xC] = 0xA4;
    let _ = cpu.cycle(&mut gfx);
    assert_eq!(0xB8, cpu.v[0xB]);
    assert_eq!(0, cpu.v[0xF]);
}

#[test]
fn shr_one_test() {
    let mut ram = RAM::new();
    ram.write_word(0x200, 0x8B06);
    let mut cpu = CPU::new(ram);
    let mut gfx = GraphicsBuffer::new();
    cpu.v[0xB] = 0x1B;
    let _ = cpu.cycle(&mut gfx);
    assert_eq!(0xD, cpu.v[0xB]);
    assert_eq!(1, cpu.v[0xF]);
}

#[test]
fn shr_zero_test() {
    let mut ram = RAM::new();
    ram.write_word(0x200, 0x8B06);
    let mut cpu = CPU::new(ram);
    let mut gfx = GraphicsBuffer::new();
    cpu.v[0xB] = 0x1C;
    let _ = cpu.cycle(&mut gfx);
    assert_eq!(0xE, cpu.v[0xB]);
    assert_eq!(0, cpu.v[0xF]);
}

#[test]
fn subn_no_borrow_test() {
    let mut ram = RAM::new();
    ram.write_word(0x200, 0x8BC7);
    let mut cpu = CPU::new(ram);
    let mut gfx = GraphicsBuffer::new();
    cpu.v[0xB] = 0x24;
    cpu.v[0xC] = 0x3A;
    let _ = cpu.cycle(&mut gfx);
    assert_eq!(0x16, cpu.v[0xB]);
    assert_eq!(1, cpu.v[0xF]);
}

#[test]
fn subn_borrow_test() {
    let mut ram = RAM::new();
    ram.write_word(0x200, 0x8BC7);
    let mut cpu = CPU::new(ram);
    let mut gfx = GraphicsBuffer::new();
    cpu.v[0xB] = 0xA4;
    cpu.v[0xC] = 0x5C;
    let _ = cpu.cycle(&mut gfx);
    assert_eq!(0xB8, cpu.v[0xB]);
    assert_eq!(0, cpu.v[0xF]);
}

#[test]
fn shl_one_test() {
    let mut ram = RAM::new();
    ram.write_word(0x200, 0x8B0E);
    let mut cpu = CPU::new(ram);
    let mut gfx = GraphicsBuffer::new();
    cpu.v[0xB] = 0xE5;
    let _ = cpu.cycle(&mut gfx);
    assert_eq!(0xCA, cpu.v[0xB]);
    assert_eq!(1, cpu.v[0xF]);
}

#[test]
fn shl_zero_test() {
    let mut ram = RAM::new();
    ram.write_word(0x200, 0x8B0E);
    let mut cpu = CPU::new(ram);
    let mut gfx = GraphicsBuffer::new();
    cpu.v[0xB] = 0x5E;
    let _ = cpu.cycle(&mut gfx);
    assert_eq!(0xBC, cpu.v[0xB]);
    assert_eq!(0, cpu.v[0xF]);
}

#[test]
fn sne_mem_eq_test() {
    let mut ram = RAM::new();
    ram.write_word(0x200, 0x95C0);
    let mut cpu = CPU::new(ram);
    cpu.v[5] = 0xA2;
    cpu.v[0xC] = 0xA2;
    let mut gfx = GraphicsBuffer::new();
    let _ = cpu.cycle(&mut gfx);
    assert_eq!(0x202, cpu.program_counter);
}

#[test]
fn sne_mem_neq_test() {
    let mut ram = RAM::new();
    ram.write_word(0x200, 0x95C0);
    let mut cpu = CPU::new(ram);
    cpu.v[5] = 0xA2;
    cpu.v[0xC] = 0xA3;
    let mut gfx = GraphicsBuffer::new();
    let _ = cpu.cycle(&mut gfx);
    assert_eq!(0x204, cpu.program_counter);
}

#[test]
fn ld_test() {
    let mut ram = RAM::new();
    ram.write_word(0x200, 0xACCC);
    let mut cpu = CPU::new(ram);
    let mut gfx = GraphicsBuffer::new();
    let _ = cpu.cycle(&mut gfx);
    assert_eq!(0xCCC, cpu.index);
}

#[test]
fn jp_mem_test() {
    let mut ram = RAM::new();
    ram.write_word(0x200, 0xBCCC);
    let mut cpu = CPU::new(ram);
    let mut gfx = GraphicsBuffer::new();
    cpu.v[0] = 0x11;
    let _ = cpu.cycle(&mut gfx);
    assert_eq!(0xCDD, cpu.program_counter);
}

#[test]
fn skp_pressed_test() {
    let mut ram = RAM::new();
    ram.write_word(0x200, 0xE39E);
    let mut cpu = CPU::new(ram);
    let mut gfx = GraphicsBuffer::new();
    cpu.v[3] = 0xA;
    cpu.keys_pressed[0xA] = true;
    let _ = cpu.cycle(&mut gfx);
    assert_eq!(0x204, cpu.program_counter);
}

#[test]
fn skp_not_pressed_test() {
    let mut ram = RAM::new();
    ram.write_word(0x200, 0xE39E);
    let mut cpu = CPU::new(ram);
    let mut gfx = GraphicsBuffer::new();
    cpu.v[3] = 0xA;
    let _ = cpu.cycle(&mut gfx);
    assert_eq!(0x202, cpu.program_counter);
}

#[test]
fn sknp_pressed_test() {
    let mut ram = RAM::new();
    ram.write_word(0x200, 0xE3A1);
    let mut cpu = CPU::new(ram);
    let mut gfx = GraphicsBuffer::new();
    cpu.v[3] = 0xA;
    cpu.keys_pressed[0xA] = true;
    let _ = cpu.cycle(&mut gfx);
    assert_eq!(0x202, cpu.program_counter);
}

#[test]
fn sknp_not_pressed_test() {
    let mut ram = RAM::new();
    ram.write_word(0x200, 0xE3A1);
    let mut cpu = CPU::new(ram);
    let mut gfx = GraphicsBuffer::new();
    cpu.v[3] = 0xA;
    let _ = cpu.cycle(&mut gfx);
    assert_eq!(0x204, cpu.program_counter);
}

#[test]
fn ld_from_dt_test() {
    let mut ram = RAM::new();
    ram.write_word(0x200, 0xF307);
    let mut cpu = CPU::new(ram);
    let mut gfx = GraphicsBuffer::new();
    cpu.delay_timer = 0xCC;
    let _ = cpu.cycle(&mut gfx);
    assert_eq!(0xCC, cpu.v[3]);
}

#[test]
fn ld_into_dt_test() {
    let mut ram = RAM::new();
    ram.write_word(0x200, 0xF315);
    let mut cpu = CPU::new(ram);
    let mut gfx = GraphicsBuffer::new();
    cpu.v[3] = 0xCC;
    let _ = cpu.cycle(&mut gfx);
    assert_eq!(0xCC, cpu.delay_timer);
}

#[test]
fn ld_into_st_test() {
    let mut ram = RAM::new();
    ram.write_word(0x200, 0xF318);
    let mut cpu = CPU::new(ram);
    let mut gfx = GraphicsBuffer::new();
    cpu.v[3] = 0xCC;
    let _ = cpu.cycle(&mut gfx);
    assert_eq!(0xCC, cpu.sound_timer);
}

#[test]
fn add_index_test() {
    let mut ram = RAM::new();
    ram.write_word(0x200, 0xF31E);
    let mut cpu = CPU::new(ram);
    let mut gfx = GraphicsBuffer::new();
    cpu.index = 0x2211;
    cpu.v[3] = 0xCC;
    let _ = cpu.cycle(&mut gfx);
    assert_eq!(0x22DD, cpu.index);
}

#[test]
fn ld_sprite_test() {
    let mut ram = RAM::new();
    ram.write_word(0x200, 0xF329);
    let mut cpu = CPU::new(ram);
    let mut gfx = GraphicsBuffer::new();
    cpu.v[3] = 0xA;
    let _ = cpu.cycle(&mut gfx);
    assert_eq!(0x82, cpu.index);
}

#[test]
fn bin_dec_test() {
    let mut ram = RAM::new();
    ram.write_word(0x200, 0xF333);
    let mut cpu = CPU::new(ram);
    let mut gfx = GraphicsBuffer::new();
    cpu.v[3] = 0xA2;
    cpu.index = 0x400;
    let _ = cpu.cycle(&mut gfx);
    assert_eq!(1, cpu.ram.read_byte(0x400));
    assert_eq!(6, cpu.ram.read_byte(0x401));
    assert_eq!(2, cpu.ram.read_byte(0x402));
}

#[test]
fn ld_from_reg_test() {
    let mut ram = RAM::new();
    ram.write_word(0x200, 0xFF55);
    let mut cpu = CPU::new(ram);
    let mut gfx = GraphicsBuffer::new();
    cpu.v[3] = 0xA2;
    cpu.v[7] = 0x13;
    cpu.index = 0x400;
    let _ = cpu.cycle(&mut gfx);
    assert_eq!(0xA2, cpu.ram.read_byte(0x403));
    assert_eq!(0x13, cpu.ram.read_byte(0x407));
}

#[test]
fn ld_to_reg_test() {
    let mut ram = RAM::new();
    ram.write_word(0x200, 0xFF65);
    ram.write_byte(0x403, 0xA2);
    ram.write_byte(0x407, 0x13);
    let mut cpu = CPU::new(ram);
    let mut gfx = GraphicsBuffer::new();
    cpu.index = 0x400;
    let _ = cpu.cycle(&mut gfx);
    assert_eq!(0xA2, cpu.v[3]);
    assert_eq!(0x13, cpu.v[7]);
}
