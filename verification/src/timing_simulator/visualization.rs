//! The pipeline visualization: what to show, in which output format, and
//! the cycle-by-cycle rendering of the pipeline as text, CSV or JSON.
use vstd::prelude::*;
use vstd::string::StrSliceExecFns;
use super::pipeline::{HazardType, Pipeline, PipelineStage, PipelineStageStatus, PipelineStageType};
use crate::functional_simulator::disassembly::{decimal, hex_width, push_count, push_decimal, push_hex_width};
use crate::functional_simulator::instructions::Instruction;

verus! {

#[derive(Debug, Clone, Copy, PartialEq, Eq, Structural)]
pub enum OutputFormat {
    Text,
    CSV,
    JSON,
}

/// What a pipeline visualization shows, and how.
#[derive(Debug, Clone, Copy, PartialEq, Eq, Structural)]
pub struct PipelineVisualization {
    pub show_cycle_info: bool,
    pub show_hazards: bool,
    pub show_instruction_flow: bool,
    pub colorize_output: bool,
    pub output_format: OutputFormat,
}

impl PipelineVisualization {
    /// Everything shown, colored, as text.
    pub open spec fn spec_new() -> Self {
        PipelineVisualization {
            show_cycle_info: true,
            show_hazards: true,
            show_instruction_flow: true,
            colorize_output: true,
            output_format: OutputFormat::Text,
        }
    }

    /// Everything shown, colored, as text.
    pub fn new() -> (r: Self)
        ensures
            r == Self::spec_new(),
    {
        Self {
            show_cycle_info: true,
            show_hazards: true,
            show_instruction_flow: true,
            colorize_output: true,
            output_format: OutputFormat::Text,
        }
    }
}

/// The mnemonic a pipeline stage shows for `i`.
pub open spec fn mnemonic(i: Instruction) -> Seq<char> {
    match i {
        Instruction::Add { .. } => "ADD"@,
        Instruction::Sub { .. } => "SUB"@,
        Instruction::And { .. } => "AND"@,
        Instruction::Or { .. } => "OR"@,
        Instruction::Xor { .. } => "XOR"@,
        Instruction::Nor { .. } => "NOR"@,
        Instruction::Slt { .. } => "SLT"@,
        Instruction::Sll { .. } => "SLL"@,
        Instruction::Srl { .. } => "SRL"@,
        Instruction::Sra { .. } => "SRA"@,
        Instruction::Sllv { .. } => "SLLV"@,
        Instruction::Srlv { .. } => "SRLV"@,
        Instruction::Srav { .. } => "SRAV"@,
        Instruction::Mult { .. } => "MULT"@,
        Instruction::Div { .. } => "DIV"@,
        Instruction::Divu { .. } => "DIVU"@,
        Instruction::Mflo { .. } => "MFLO"@,
        Instruction::Mfhi { .. } => "MFHI"@,
        Instruction::Mthi { .. } => "MTHI"@,
        Instruction::Mtlo { .. } => "MTLO"@,
        Instruction::Addi { .. } => "ADDI"@,
        Instruction::Addiu { .. } => "ADDIU"@,
        Instruction::Andi { .. } => "ANDI"@,
        Instruction::Ori { .. } => "ORI"@,
        Instruction::Xori { .. } => "XORI"@,
        Instruction::Lui { .. } => "LUI"@,
        Instruction::Slti { .. } => "SLTI"@,
        Instruction::Sltiu { .. } => "SLTIU"@,
        Instruction::Lw { .. } => "LW"@,
        Instruction::Lb { .. } => "LB"@,
        Instruction::Lbu { .. } => "LBU"@,
        Instruction::Lh { .. } => "LH"@,
        Instruction::Lhu { .. } => "LHU"@,
        Instruction::Sw { .. } => "SW"@,
        Instruction::Sb { .. } => "SB"@,
        Instruction::Sh { .. } => "SH"@,
        Instruction::Beq { .. } => "BEQ"@,
        Instruction::Bne { .. } => "BNE"@,
        Instruction::Bgtz { .. } => "BGTZ"@,
        Instruction::Blez { .. } => "BLEZ"@,
        Instruction::Bltz { .. } => "BLTZ"@,
        Instruction::Bgez { .. } => "BGEZ"@,
        Instruction::J { .. } => "J"@,
        Instruction::Jal { .. } => "JAL"@,
        Instruction::Jr { .. } => "JR"@,
        Instruction::Jalr { .. } => "JALR"@,
        Instruction::Nop => "NOP"@,
        Instruction::InvalidInstruction => "INVALID"@,
        _ => "??"@,
    }
}

/// The mnemonic shown for an instruction in a pipeline stage.
pub fn format_instruction(instruction: &Instruction) -> (r: &'static str)
    ensures
        r@ == mnemonic(*instruction),
{
    match instruction {
        Instruction::Add { .. } => "ADD",
        Instruction::Sub { .. } => "SUB",
        Instruction::And { .. } => "AND",
        Instruction::Or { .. } => "OR",
        Instruction::Xor { .. } => "XOR",
        Instruction::Nor { .. } => "NOR",
        Instruction::Slt { .. } => "SLT",
        Instruction::Sll { .. } => "SLL",
        Instruction::Srl { .. } => "SRL",
        Instruction::Sra { .. } => "SRA",
        Instruction::Sllv { .. } => "SLLV",
        Instruction::Srlv { .. } => "SRLV",
        Instruction::Srav { .. } => "SRAV",
        Instruction::Mult { .. } => "MULT",
        Instruction::Div { .. } => "DIV",
        Instruction::Divu { .. } => "DIVU",
        Instruction::Mflo { .. } => "MFLO",
        Instruction::Mfhi { .. } => "MFHI",
        Instruction::Mthi { .. } => "MTHI",
        Instruction::Mtlo { .. } => "MTLO",
        Instruction::Addi { .. } => "ADDI",
        Instruction::Addiu { .. } => "ADDIU",
        Instruction::Andi { .. } => "ANDI",
        Instruction::Ori { .. } => "ORI",
        Instruction::Xori { .. } => "XORI",
        Instruction::Lui { .. } => "LUI",
        Instruction::Slti { .. } => "SLTI",
        Instruction::Sltiu { .. } => "SLTIU",
        Instruction::Lw { .. } => "LW",
        Instruction::Lb { .. } => "LB",
        Instruction::Lbu { .. } => "LBU",
        Instruction::Lh { .. } => "LH",
        Instruction::Lhu { .. } => "LHU",
        Instruction::Sw { .. } => "SW",
        Instruction::Sb { .. } => "SB",
        Instruction::Sh { .. } => "SH",
        Instruction::Beq { .. } => "BEQ",
        Instruction::Bne { .. } => "BNE",
        Instruction::Bgtz { .. } => "BGTZ",
        Instruction::Blez { .. } => "BLEZ",
        Instruction::Bltz { .. } => "BLTZ",
        Instruction::Bgez { .. } => "BGEZ",
        Instruction::J { .. } => "J",
        Instruction::Jal { .. } => "JAL",
        Instruction::Jr { .. } => "JR",
        Instruction::Jalr { .. } => "JALR",
        Instruction::Nop => "NOP",
        Instruction::InvalidInstruction => "INVALID",
        _ => "??",
    }
}

/// The name shown for a kind of hazard.
pub open spec fn hazard_label(h: HazardType) -> Seq<char> {
    match h {
        HazardType::NoHazard => "None"@,
        HazardType::RAW => "RAW"@,
        HazardType::WAR => "WAR"@,
        HazardType::WAW => "WAW"@,
        HazardType::Control => "Control"@,
        HazardType::StructuralHazard => "Structural"@,
    }
}

/// The name shown for a kind of hazard.
pub fn hazard_name(hazard: &HazardType) -> (r: &'static str)
    ensures
        r@ == hazard_label(*hazard),
{
    match hazard {
        HazardType::NoHazard => "None",
        HazardType::RAW => "RAW",
        HazardType::WAR => "WAR",
        HazardType::WAW => "WAW",
        HazardType::Control => "Control",
        HazardType::StructuralHazard => "Structural",
    }
}

/// The name of a kind of stage, as in the JSON output.
pub open spec fn stage_type_label(t: PipelineStageType) -> Seq<char> {
    match t {
        PipelineStageType::Fetch => "Fetch"@,
        PipelineStageType::Decode => "Decode"@,
        PipelineStageType::Execute => "Execute"@,
        PipelineStageType::Memory => "Memory"@,
        PipelineStageType::Writeback => "Writeback"@,
    }
}

fn stage_type_name(t: PipelineStageType) -> (r: &'static str)
    ensures
        r@ == stage_type_label(t),
{
    match t {
        PipelineStageType::Fetch => "Fetch",
        PipelineStageType::Decode => "Decode",
        PipelineStageType::Execute => "Execute",
        PipelineStageType::Memory => "Memory",
        PipelineStageType::Writeback => "Writeback",
    }
}

/// The name of a stage status, as in the JSON output.
pub open spec fn status_label(s: PipelineStageStatus) -> Seq<char> {
    match s {
        PipelineStageStatus::Empty => "Empty"@,
        PipelineStageStatus::Busy => "Busy"@,
        PipelineStageStatus::Stalled => "Stalled"@,
        PipelineStageStatus::Flushed => "Flushed"@,
    }
}

fn status_name(s: PipelineStageStatus) -> (r: &'static str)
    ensures
        r@ == status_label(s),
{
    match s {
        PipelineStageStatus::Empty => "Empty",
        PipelineStageStatus::Busy => "Busy",
        PipelineStageStatus::Stalled => "Stalled",
        PipelineStageStatus::Flushed => "Flushed",
    }
}

/// `s` padded with spaces on the right to at least `w` characters.
pub open spec fn padded(s: Seq<char>, w: nat) -> Seq<char> {
    if s.len() >= w {
        s
    } else {
        s + Seq::new((w - s.len()) as nat, |k: int| ' ')
    }
}

/// The `name: count` entries of the hazard kinds counted at least once,
/// in order.
pub open spec fn hazard_entries(stats: Seq<(HazardType, usize)>) -> Seq<Seq<char>>
    decreases stats.len(),
{
    if stats.len() == 0 {
        Seq::empty()
    } else {
        let rest = hazard_entries(stats.drop_last());
        let h = stats.last();
        if h.1 > 0 {
            rest.push(hazard_label(h.0) + ": "@ + decimal(h.1 as nat))
        } else {
            rest
        }
    }
}

/// The items separated by `sep`.
pub open spec fn joined(items: Seq<Seq<char>>, sep: Seq<char>) -> Seq<char>
    decreases items.len(),
{
    if items.len() == 0 {
        Seq::empty()
    } else if items.len() == 1 {
        items[0]
    } else {
        joined(items.drop_last(), sep) + sep + items.last()
    }
}

/// Each item as a `- item` line.
pub open spec fn bullet_lines(items: Seq<Seq<char>>) -> Seq<char>
    decreases items.len(),
{
    if items.len() == 0 {
        Seq::empty()
    } else {
        bullet_lines(items.drop_last()) + "- "@ + items.last() + "\n"@
    }
}

/// The status mark of a stage in the text output: blank when empty, the
/// remaining cycles and `c` or `B` when busy, `S` when stalled, `F` when
/// flushed.
pub open spec fn status_mark(st: PipelineStage) -> Seq<char> {
    match st.status {
        PipelineStageStatus::Empty => " "@,
        PipelineStageStatus::Busy => if st.cycles_remaining > 0 {
            decimal(st.cycles_remaining as nat) + "c"@
        } else {
            "B"@
        },
        PipelineStageStatus::Stalled => "S"@,
        PipelineStageStatus::Flushed => "F"@,
    }
}

/// The cell of a stage in the text output.
pub open spec fn text_cell(st: PipelineStage) -> Seq<char> {
    (match st.instruction {
        Some(i) => padded(mnemonic(i), 5),
        None => "     "@,
    }) + status_mark(st) + " | "@
}

/// The cells of `stages` in the text output.
pub open spec fn text_cells(stages: Seq<PipelineStage>) -> Seq<char>
    decreases stages.len(),
{
    if stages.len() == 0 {
        Seq::empty()
    } else {
        text_cells(stages.drop_last()) + text_cell(stages.last())
    }
}

/// The border line of the text output.
pub open spec fn border() -> Seq<char> {
    "+-------+-------+-------+-------+-------+\n"@
}

/// The text output for `stages` and hazard counts `stats` at `cycle`.
pub open spec fn text_rendering(
    v: PipelineVisualization,
    stages: Seq<PipelineStage>,
    stats: Seq<(HazardType, usize)>,
    cycle: nat,
) -> Seq<char> {
    let entries = hazard_entries(stats);
    (if v.show_cycle_info {
        "=== Pipeline State at Cycle "@ + decimal(cycle) + " ===\n"@
    } else {
        Seq::empty()
    }) + border() + "| Fetch | Decode| Exec  | Mem   | Write |\n"@ + border() + "| "@ + text_cells(stages)
        + "\n"@ + border() + (if v.show_hazards && entries.len() > 0 {
        "\nActive Hazards:\n"@ + bullet_lines(entries)
    } else {
        Seq::empty()
    })
}

/// The cell of a stage in the CSV output.
pub open spec fn csv_cell(st: PipelineStage) -> Seq<char> {
    "\""@ + (match st.instruction {
        Some(i) => mnemonic(i),
        None => Seq::empty(),
    }) + "\","@
}

/// The cells of `stages` in the CSV output.
pub open spec fn csv_cells(stages: Seq<PipelineStage>) -> Seq<char>
    decreases stages.len(),
{
    if stages.len() == 0 {
        Seq::empty()
    } else {
        csv_cells(stages.drop_last()) + csv_cell(stages.last())
    }
}

/// The CSV output at `cycle`: a header on cycle 1, then the cycle, the
/// stages' mnemonics and the hazards.
pub open spec fn csv_rendering(stages: Seq<PipelineStage>, stats: Seq<(HazardType, usize)>, cycle: nat) -> Seq<char> {
    (if cycle == 1 {
        "Cycle,Fetch,Decode,Execute,Memory,Writeback,Hazards\n"@
    } else {
        Seq::empty()
    }) + decimal(cycle) + ","@ + csv_cells(stages) + "\""@ + joined(hazard_entries(stats), "; "@) + "\"\n"@
}

/// The opening of a stage's JSON object: its type, status, instruction
/// and program counter.
pub open spec fn json_stage_head(st: PipelineStage) -> Seq<char> {
    "    {\n"@ + "      \"type\": \""@ + stage_type_label(st.stage_type) + "\",\n"@ + "      \"status\": \""@
        + status_label(st.status) + "\",\n"@ + (match st.instruction {
        Some(i) => "      \"instruction\": \""@ + mnemonic(i) + "\",\n"@,
        None => "      \"instruction\": null,\n"@,
    }) + "      \"pc\": \"0x"@ + hex_width(st.pc as nat, 8) + "\""@
}

/// The optional fields of a stage's JSON object: remaining cycles, target
/// register and memory address, when there are any.
pub open spec fn json_stage_extras(st: PipelineStage) -> Seq<char> {
    (if st.cycles_remaining > 0 {
        ",\n      \"cyclesRemaining\": "@ + decimal(st.cycles_remaining as nat)
    } else {
        Seq::empty()
    }) + (match st.target_register {
        Some(t) => ",\n      \"targetRegister\": "@ + decimal(t as nat),
        None => Seq::empty(),
    }) + (match st.memory_address {
        Some(a) => ",\n      \"memoryAddress\": \"0x"@ + hex_width(a as nat, 8) + "\""@,
        None => Seq::empty(),
    })
}

/// The JSON object of a stage, followed by a comma unless it is the last.
pub open spec fn json_stage(st: PipelineStage, last: bool) -> Seq<char> {
    json_stage_head(st) + json_stage_extras(st) + "\n    }"@ + (if last {
        Seq::empty()
    } else {
        ","@
    }) + "\n"@
}

/// The JSON objects of the first `k` of `stages`.
pub open spec fn json_stages(stages: Seq<PipelineStage>, k: nat) -> Seq<char>
    decreases k,
{
    if k == 0 {
        Seq::empty()
    } else {
        json_stages(stages, (k - 1) as nat) + json_stage(stages[k - 1], k == stages.len())
    }
}

/// The first `k` hazard entries as JSON strings.
pub open spec fn json_hazards(entries: Seq<Seq<char>>, k: nat) -> Seq<char>
    decreases k,
{
    if k == 0 {
        Seq::empty()
    } else {
        json_hazards(entries, (k - 1) as nat) + "    \""@ + entries[k - 1] + "\""@ + (if k == entries.len() {
            Seq::empty()
        } else {
            ","@
        }) + "\n"@
    }
}

/// The JSON output at `cycle`.
pub open spec fn json_rendering(stages: Seq<PipelineStage>, stats: Seq<(HazardType, usize)>, cycle: nat) -> Seq<char> {
    let entries = hazard_entries(stats);
    "{\n"@ + "  \"cycle\": "@ + decimal(cycle) + ",\n"@ + "  \"stages\": [\n"@ + json_stages(stages, stages.len())
        + "  ],\n"@ + "  \"hazards\": [\n"@ + json_hazards(entries, entries.len()) + "  ]\n"@ + "}\n"@
}

/// The rendering of `stages` and `stats` at `cycle` in the visualization's
/// output format.
pub open spec fn rendering(
    v: PipelineVisualization,
    stages: Seq<PipelineStage>,
    stats: Seq<(HazardType, usize)>,
    cycle: nat,
) -> Seq<char> {
    match v.output_format {
        OutputFormat::Text => text_rendering(v, stages, stats, cycle),
        OutputFormat::CSV => csv_rendering(stages, stats, cycle),
        OutputFormat::JSON => json_rendering(stages, stats, cycle),
    }
}

/// The `name: count` entries of the hazard kinds counted at least once.
fn hazard_entry_list(stats: &Vec<(HazardType, usize)>) -> (r: Vec<String>)
    ensures
        r@.len() == hazard_entries(stats@).len(),
        forall|k: int| 0 <= k < r@.len() ==> (#[trigger] r@[k])@ == hazard_entries(stats@)[k],
{
    let mut out: Vec<String> = Vec::new();
    let mut i: usize = 0;
    while i < stats.len()
        invariant
            i <= stats@.len(),
            out@.len() == hazard_entries(stats@.take(i as int)).len(),
            forall|k: int| 0 <= k < out@.len() ==> (#[trigger] out@[k])@ == hazard_entries(stats@.take(i as int))[k],
        decreases stats@.len() - i,
    {
        assert(stats@.take(i + 1).drop_last() =~= stats@.take(i as int));
        let (h, c) = stats[i];
        if c > 0 {
            let mut e = String::new();
            e.append(hazard_name(&h));
            e.append(": ");
            push_count(&mut e, c);
            out.push(e);
        }
        i = i + 1;
    }
    assert(stats@.take(stats@.len() as int) =~= stats@);
    out
}

/// Appends the text cell of `st`.
fn push_text_cell(s: &mut String, st: &PipelineStage)
    ensures
        final(s)@ == old(s)@ + text_cell(*st),
{
    let ghost s0 = s@;
    match st.instruction {
        Some(i) => {
            let m = format_instruction(&i);
            s.append(m);
            let mut n = m.unicode_len();
            proof {
                reveal_strlit(" ");
            }
            while n < 5
                invariant
                    n <= 5 || n == m@.len(),
                    m@.len() <= n,
                    s@ == s0 + m@ + Seq::new((n - m@.len()) as nat, |k: int| ' '),
                decreases 5 - n,
            {
                proof {
                    reveal_strlit(" ");
                }
                s.append(" ");
                n = n + 1;
                assert(s@ =~= s0 + m@ + Seq::new((n - m@.len()) as nat, |k: int| ' '));
            }
            assert(s@ =~= s0 + padded(mnemonic(i), 5));
        },
        None => {
            s.append("     ");
        },
    }
    let ghost s1 = s@;
    match st.status {
        PipelineStageStatus::Empty => {
            s.append(" ");
        },
        PipelineStageStatus::Busy => {
            if st.cycles_remaining > 0 {
                push_count(s, st.cycles_remaining);
                s.append("c");
            } else {
                s.append("B");
            }
        },
        PipelineStageStatus::Stalled => {
            s.append("S");
        },
        PipelineStageStatus::Flushed => {
            s.append("F");
        },
    }
    assert(s@ =~= s1 + status_mark(*st));
    s.append(" | ");
    assert(s@ =~= s0 + text_cell(*st));
}

/// Appends the CSV cell of `st`.
fn push_csv_cell(s: &mut String, st: &PipelineStage)
    ensures
        final(s)@ == old(s)@ + csv_cell(*st),
{
    let ghost s0 = s@;
    s.append("\"");
    match st.instruction {
        Some(i) => {
            s.append(format_instruction(&i));
        },
        None => {},
    }
    s.append("\",");
    assert(s@ =~= s0 + csv_cell(*st));
}

fn push_json_stage_head(s: &mut String, st: &PipelineStage)
    ensures
        final(s)@ == old(s)@ + json_stage_head(*st),
{
    let ghost s0 = s@;
    s.append("    {\n");
    s.append("      \"type\": \"");
    s.append(stage_type_name(st.stage_type));
    s.append("\",\n");
    s.append("      \"status\": \"");
    s.append(status_name(st.status));
    s.append("\",\n");
    let ghost s1 = s@;
    match st.instruction {
        Some(i) => {
            s.append("      \"instruction\": \"");
            s.append(format_instruction(&i));
            s.append("\",\n");
        },
        None => {
            s.append("      \"instruction\": null,\n");
        },
    }
    let ghost s2 = s@;
    s.append("      \"pc\": \"0x");
    push_hex_width(s, st.pc, 8);
    s.append("\"");
    assert(s@ =~= s0 + json_stage_head(*st));
}

fn push_json_stage_extras(s: &mut String, st: &PipelineStage)
    ensures
        final(s)@ == old(s)@ + json_stage_extras(*st),
{
    let ghost s0 = s@;
    if st.cycles_remaining > 0 {
        s.append(",\n      \"cyclesRemaining\": ");
        push_count(s, st.cycles_remaining);
    }
    let ghost s1 = s@;
    match st.target_register {
        Some(t) => {
            s.append(",\n      \"targetRegister\": ");
            push_decimal(s, t);
        },
        None => {},
    }
    let ghost s2 = s@;
    match st.memory_address {
        Some(a) => {
            s.append(",\n      \"memoryAddress\": \"0x");
            push_hex_width(s, a, 8);
            s.append("\"");
        },
        None => {},
    }
    assert(s@ =~= s0 + json_stage_extras(*st));
}

/// Appends the JSON object of `st`.
fn push_json_stage(s: &mut String, st: &PipelineStage, last: bool)
    ensures
        final(s)@ == old(s)@ + json_stage(*st, last),
{
    let ghost s0 = s@;
    push_json_stage_head(s, st);
    push_json_stage_extras(s, st);
    s.append("\n    }");
    if !last {
        s.append(",");
    }
    s.append("\n");
    assert(s@ =~= s0 + json_stage(*st, last));
}

impl PipelineVisualization {
    fn visualize_text(&self, pipeline: &Pipeline, cycle: usize) -> (r: String)
        ensures
            r@ == text_rendering(*self, pipeline.stages@, pipeline.hazard_stats@, cycle as nat),
    {
        let mut s = String::new();
        if self.show_cycle_info {
            s.append("=== Pipeline State at Cycle ");
            push_count(&mut s, cycle);
            s.append(" ===\n");
        }
        s.append("+-------+-------+-------+-------+-------+\n");
        s.append("| Fetch | Decode| Exec  | Mem   | Write |\n");
        s.append("+-------+-------+-------+-------+-------+\n");
        s.append("| ");
        let ghost s0 = s@;
        let stages = &pipeline.stages;
        let mut k: usize = 0;
        while k < stages.len()
            invariant
                k <= stages@.len(),
                s@ == s0 + text_cells(stages@.take(k as int)),
            decreases stages@.len() - k,
        {
            assert(stages@.take(k + 1).drop_last() =~= stages@.take(k as int));
            push_text_cell(&mut s, &stages[k]);
            k = k + 1;
            assert(s@ =~= s0 + text_cells(stages@.take(k as int)));
        }
        assert(stages@.take(stages@.len() as int) =~= stages@);
        s.append("\n");
        s.append("+-------+-------+-------+-------+-------+\n");
        let ghost s1 = s@;
        if self.show_hazards {
            let entries = hazard_entry_list(&pipeline.hazard_stats);
            let ghost es = hazard_entries(pipeline.hazard_stats@);
            if entries.len() > 0 {
                s.append("\nActive Hazards:\n");
                let ghost s2 = s@;
                let mut j: usize = 0;
                while j < entries.len()
                    invariant
                        j <= entries@.len(),
                        entries@.len() == es.len(),
                        forall|q: int| 0 <= q < entries@.len() ==> (#[trigger] entries@[q])@ == es[q],
                        s@ == s2 + bullet_lines(es.take(j as int)),
                    decreases entries@.len() - j,
                {
                    assert(es.take(j + 1).drop_last() =~= es.take(j as int));
                    s.append("- ");
                    s.append(entries[j].as_str());
                    s.append("\n");
                    j = j + 1;
                    assert(s@ =~= s2 + bullet_lines(es.take(j as int)));
                }
                assert(es.take(es.len() as int) =~= es);
            }
        }
        assert(s@ =~= text_rendering(*self, pipeline.stages@, pipeline.hazard_stats@, cycle as nat));
        s
    }

    fn visualize_csv(&self, pipeline: &Pipeline, cycle: usize) -> (r: String)
        ensures
            r@ == csv_rendering(pipeline.stages@, pipeline.hazard_stats@, cycle as nat),
    {
        let mut s = String::new();
        if cycle == 1 {
            s.append("Cycle,Fetch,Decode,Execute,Memory,Writeback,Hazards\n");
        }
        push_count(&mut s, cycle);
        s.append(",");
        let ghost s0 = s@;
        let stages = &pipeline.stages;
        let mut k: usize = 0;
        while k < stages.len()
            invariant
                k <= stages@.len(),
                s@ == s0 + csv_cells(stages@.take(k as int)),
            decreases stages@.len() - k,
        {
            assert(stages@.take(k + 1).drop_last() =~= stages@.take(k as int));
            push_csv_cell(&mut s, &stages[k]);
            k = k + 1;
            assert(s@ =~= s0 + csv_cells(stages@.take(k as int)));
        }
        assert(stages@.take(stages@.len() as int) =~= stages@);
        s.append("\"");
        let ghost s1 = s@;
        let entries = hazard_entry_list(&pipeline.hazard_stats);
        let ghost es = hazard_entries(pipeline.hazard_stats@);
        let mut j: usize = 0;
        while j < entries.len()
            invariant
                j <= entries@.len(),
                entries@.len() == es.len(),
                forall|q: int| 0 <= q < entries@.len() ==> (#[trigger] entries@[q])@ == es[q],
                s@ == s1 + joined(es.take(j as int), "; "@),
            decreases entries@.len() - j,
        {
            assert(es.take(j + 1).drop_last() =~= es.take(j as int));
            if j > 0 {
                s.append("; ");
            }
            s.append(entries[j].as_str());
            j = j + 1;
            assert(s@ =~= s1 + joined(es.take(j as int), "; "@));
        }
        assert(es.take(es.len() as int) =~= es);
        s.append("\"\n");
        assert(s@ =~= csv_rendering(pipeline.stages@, pipeline.hazard_stats@, cycle as nat));
        s
    }

    fn visualize_json(&self, pipeline: &Pipeline, cycle: usize) -> (r: String)
        ensures
            r@ == json_rendering(pipeline.stages@, pipeline.hazard_stats@, cycle as nat),
    {
        let mut s = String::new();
        s.append("{\n");
        s.append("  \"cycle\": ");
        push_count(&mut s, cycle);
        s.append(",\n");
        s.append("  \"stages\": [\n");
        let ghost s0 = s@;
        let stages = &pipeline.stages;
        let n = stages.len();
        let mut k: usize = 0;
        while k < n
            invariant
                k <= n == stages@.len(),
                s@ == s0 + json_stages(stages@, k as nat),
            decreases n - k,
        {
            push_json_stage(&mut s, &stages[k], k + 1 == n);
            k = k + 1;
            assert(s@ =~= s0 + json_stages(stages@, k as nat));
        }
        s.append("  ],\n");
        s.append("  \"hazards\": [\n");
        let ghost s1 = s@;
        let entries = hazard_entry_list(&pipeline.hazard_stats);
        let ghost es = hazard_entries(pipeline.hazard_stats@);
        let m = entries.len();
        let mut j: usize = 0;
        while j < m
            invariant
                j <= m == entries@.len(),
                entries@.len() == es.len(),
                forall|q: int| 0 <= q < entries@.len() ==> (#[trigger] entries@[q])@ == es[q],
                s@ == s1 + json_hazards(es, j as nat),
            decreases m - j,
        {
            s.append("    \"");
            s.append(entries[j].as_str());
            s.append("\"");
            if j + 1 < m {
                s.append(",");
            }
            s.append("\n");
            j = j + 1;
            assert(s@ =~= s1 + json_hazards(es, j as nat));
        }
        s.append("  ]\n");
        s.append("}\n");
        assert(s@ =~= json_rendering(pipeline.stages@, pipeline.hazard_stats@, cycle as nat));
        s
    }

    /// The pipeline at `cycle` in this visualization's output format.
    pub fn visualize_pipeline(&self, pipeline: &Pipeline, cycle: usize) -> (r: String)
        ensures
            r@ == rendering(*self, pipeline.stages@, pipeline.hazard_stats@, cycle as nat),
    {
        match self.output_format {
            OutputFormat::Text => self.visualize_text(pipeline, cycle),
            OutputFormat::CSV => self.visualize_csv(pipeline, cycle),
            OutputFormat::JSON => self.visualize_json(pipeline, cycle),
        }
    }
}

} // verus!
