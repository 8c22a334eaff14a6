use vstd::arithmetic::div_mod::{lemma_fundamental_div_mod, lemma_mod_bound};
use vstd::arithmetic::power2::{lemma2_to64, lemma_pow2_adds, lemma_pow2_pos, pow2};
use vstd::prelude::*;

verus! {

/// The canonical Huffman code of HPACK (RFC 7541, Appendix B) as
/// `(bit length, right-aligned code)`, for the octets `0..=255` and the
/// end-of-string symbol `256`.
pub open spec fn huffman_code(sym: int) -> (nat, nat) {
    if sym < 128 {
        if sym < 64 {
            if sym < 32 {
                if sym < 16 {
                    if sym < 8 {
                        if sym < 4 {
                            if sym < 2 {
                                if sym < 1 {
                                    (13, 0x1ff8)
                                } else {
                                    (23, 0x7fffd8)
                                }
                            } else {
                                if sym < 3 {
                                    (28, 0xfffffe2)
                                } else {
                                    (28, 0xfffffe3)
                                }
                            }
                        } else {
                            if sym < 6 {
                                if sym < 5 {
                                    (28, 0xfffffe4)
                                } else {
                                    (28, 0xfffffe5)
                                }
                            } else {
                                if sym < 7 {
                                    (28, 0xfffffe6)
                                } else {
                                    (28, 0xfffffe7)
                                }
                            }
                        }
                    } else {
                        if sym < 12 {
                            if sym < 10 {
                                if sym < 9 {
                                    (28, 0xfffffe8)
                                } else {
                                    (24, 0xffffea)
                                }
                            } else {
                                if sym < 11 {
                                    (30, 0x3ffffffc)
                                } else {
                                    (28, 0xfffffe9)
                                }
                            }
                        } else {
                            if sym < 14 {
                                if sym < 13 {
                                    (28, 0xfffffea)
                                } else {
                                    (30, 0x3ffffffd)
                                }
                            } else {
                                if sym < 15 {
                                    (28, 0xfffffeb)
                                } else {
                                    (28, 0xfffffec)
                                }
                            }
                        }
                    }
                } else {
                    if sym < 24 {
                        if sym < 20 {
                            if sym < 18 {
                                if sym < 17 {
                                    (28, 0xfffffed)
                                } else {
                                    (28, 0xfffffee)
                                }
                            } else {
                                if sym < 19 {
                                    (28, 0xfffffef)
                                } else {
                                    (28, 0xffffff0)
                                }
                            }
                        } else {
                            if sym < 22 {
                                if sym < 21 {
                                    (28, 0xffffff1)
                                } else {
                                    (28, 0xffffff2)
                                }
                            } else {
                                if sym < 23 {
                                    (30, 0x3ffffffe)
                                } else {
                                    (28, 0xffffff3)
                                }
                            }
                        }
                    } else {
                        if sym < 28 {
                            if sym < 26 {
                                if sym < 25 {
                                    (28, 0xffffff4)
                                } else {
                                    (28, 0xffffff5)
                                }
                            } else {
                                if sym < 27 {
                                    (28, 0xffffff6)
                                } else {
                                    (28, 0xffffff7)
                                }
                            }
                        } else {
                            if sym < 30 {
                                if sym < 29 {
                                    (28, 0xffffff8)
                                } else {
                                    (28, 0xffffff9)
                                }
                            } else {
                                if sym < 31 {
                                    (28, 0xffffffa)
                                } else {
                                    (28, 0xffffffb)
                                }
                            }
                        }
                    }
                }
            } else {
                if sym < 48 {
                    if sym < 40 {
                        if sym < 36 {
                            if sym < 34 {
                                if sym < 33 {
                                    (6, 0x14)
                                } else {
                                    (10, 0x3f8)
                                }
                            } else {
                                if sym < 35 {
                                    (10, 0x3f9)
                                } else {
                                    (12, 0xffa)
                                }
                            }
                        } else {
                            if sym < 38 {
                                if sym < 37 {
                                    (13, 0x1ff9)
                                } else {
                                    (6, 0x15)
                                }
                            } else {
                                if sym < 39 {
                                    (8, 0xf8)
                                } else {
                                    (11, 0x7fa)
                                }
                            }
                        }
                    } else {
                        if sym < 44 {
                            if sym < 42 {
                                if sym < 41 {
                                    (10, 0x3fa)
                                } else {
                                    (10, 0x3fb)
                                }
                            } else {
                                if sym < 43 {
                                    (8, 0xf9)
                                } else {
                                    (11, 0x7fb)
                                }
                            }
                        } else {
                            if sym < 46 {
                                if sym < 45 {
                                    (8, 0xfa)
                                } else {
                                    (6, 0x16)
                                }
                            } else {
                                if sym < 47 {
                                    (6, 0x17)
                                } else {
                                    (6, 0x18)
                                }
                            }
                        }
                    }
                } else {
                    if sym < 56 {
                        if sym < 52 {
                            if sym < 50 {
                                if sym < 49 {
                                    (5, 0x0)
                                } else {
                                    (5, 0x1)
                                }
                            } else {
                                if sym < 51 {
                                    (5, 0x2)
                                } else {
                                    (6, 0x19)
                                }
                            }
                        } else {
                            if sym < 54 {
                                if sym < 53 {
                                    (6, 0x1a)
                                } else {
                                    (6, 0x1b)
                                }
                            } else {
                                if sym < 55 {
                                    (6, 0x1c)
                                } else {
                                    (6, 0x1d)
                                }
                            }
                        }
                    } else {
                        if sym < 60 {
                            if sym < 58 {
                                if sym < 57 {
                                    (6, 0x1e)
                                } else {
                                    (6, 0x1f)
                                }
                            } else {
                                if sym < 59 {
                                    (7, 0x5c)
                                } else {
                                    (8, 0xfb)
                                }
                            }
                        } else {
                            if sym < 62 {
                                if sym < 61 {
                                    (15, 0x7ffc)
                                } else {
                                    (6, 0x20)
                                }
                            } else {
                                if sym < 63 {
                                    (12, 0xffb)
                                } else {
                                    (10, 0x3fc)
                                }
                            }
                        }
                    }
                }
            }
        } else {
            if sym < 96 {
                if sym < 80 {
                    if sym < 72 {
                        if sym < 68 {
                            if sym < 66 {
                                if sym < 65 {
                                    (13, 0x1ffa)
                                } else {
                                    (6, 0x21)
                                }
                            } else {
                                if sym < 67 {
                                    (7, 0x5d)
                                } else {
                                    (7, 0x5e)
                                }
                            }
                        } else {
                            if sym < 70 {
                                if sym < 69 {
                                    (7, 0x5f)
                                } else {
                                    (7, 0x60)
                                }
                            } else {
                                if sym < 71 {
                                    (7, 0x61)
                                } else {
                                    (7, 0x62)
                                }
                            }
                        }
                    } else {
                        if sym < 76 {
                            if sym < 74 {
                                if sym < 73 {
                                    (7, 0x63)
                                } else {
                                    (7, 0x64)
                                }
                            } else {
                                if sym < 75 {
                                    (7, 0x65)
                                } else {
                                    (7, 0x66)
                                }
                            }
                        } else {
                            if sym < 78 {
                                if sym < 77 {
                                    (7, 0x67)
                                } else {
                                    (7, 0x68)
                                }
                            } else {
                                if sym < 79 {
                                    (7, 0x69)
                                } else {
                                    (7, 0x6a)
                                }
                            }
                        }
                    }
                } else {
                    if sym < 88 {
                        if sym < 84 {
                            if sym < 82 {
                                if sym < 81 {
                                    (7, 0x6b)
                                } else {
                                    (7, 0x6c)
                                }
                            } else {
                                if sym < 83 {
                                    (7, 0x6d)
                                } else {
                                    (7, 0x6e)
                                }
                            }
                        } else {
                            if sym < 86 {
                                if sym < 85 {
                                    (7, 0x6f)
                                } else {
                                    (7, 0x70)
                                }
                            } else {
                                if sym < 87 {
                                    (7, 0x71)
                                } else {
                                    (7, 0x72)
                                }
                            }
                        }
                    } else {
                        if sym < 92 {
                            if sym < 90 {
                                if sym < 89 {
                                    (8, 0xfc)
                                } else {
                                    (7, 0x73)
                                }
                            } else {
                                if sym < 91 {
                                    (8, 0xfd)
                                } else {
                                    (13, 0x1ffb)
                                }
                            }
                        } else {
                            if sym < 94 {
                                if sym < 93 {
                                    (19, 0x7fff0)
                                } else {
                                    (13, 0x1ffc)
                                }
                            } else {
                                if sym < 95 {
                                    (14, 0x3ffc)
                                } else {
                                    (6, 0x22)
                                }
                            }
                        }
                    }
                }
            } else {
                if sym < 112 {
                    if sym < 104 {
                        if sym < 100 {
                            if sym < 98 {
                                if sym < 97 {
                                    (15, 0x7ffd)
                                } else {
                                    (5, 0x3)
                                }
                            } else {
                                if sym < 99 {
                                    (6, 0x23)
                                } else {
                                    (5, 0x4)
                                }
                            }
                        } else {
                            if sym < 102 {
                                if sym < 101 {
                                    (6, 0x24)
                                } else {
                                    (5, 0x5)
                                }
                            } else {
                                if sym < 103 {
                                    (6, 0x25)
                                } else {
                                    (6, 0x26)
                                }
                            }
                        }
                    } else {
                        if sym < 108 {
                            if sym < 106 {
                                if sym < 105 {
                                    (6, 0x27)
                                } else {
                                    (5, 0x6)
                                }
                            } else {
                                if sym < 107 {
                                    (7, 0x74)
                                } else {
                                    (7, 0x75)
                                }
                            }
                        } else {
                            if sym < 110 {
                                if sym < 109 {
                                    (6, 0x28)
                                } else {
                                    (6, 0x29)
                                }
                            } else {
                                if sym < 111 {
                                    (6, 0x2a)
                                } else {
                                    (5, 0x7)
                                }
                            }
                        }
                    }
                } else {
                    if sym < 120 {
                        if sym < 116 {
                            if sym < 114 {
                                if sym < 113 {
                                    (6, 0x2b)
                                } else {
                                    (7, 0x76)
                                }
                            } else {
                                if sym < 115 {
                                    (6, 0x2c)
                                } else {
                                    (5, 0x8)
                                }
                            }
                        } else {
                            if sym < 118 {
                                if sym < 117 {
                                    (5, 0x9)
                                } else {
                                    (6, 0x2d)
                                }
                            } else {
                                if sym < 119 {
                                    (7, 0x77)
                                } else {
                                    (7, 0x78)
                                }
                            }
                        }
                    } else {
                        if sym < 124 {
                            if sym < 122 {
                                if sym < 121 {
                                    (7, 0x79)
                                } else {
                                    (7, 0x7a)
                                }
                            } else {
                                if sym < 123 {
                                    (7, 0x7b)
                                } else {
                                    (15, 0x7ffe)
                                }
                            }
                        } else {
                            if sym < 126 {
                                if sym < 125 {
                                    (11, 0x7fc)
                                } else {
                                    (14, 0x3ffd)
                                }
                            } else {
                                if sym < 127 {
                                    (13, 0x1ffd)
                                } else {
                                    (28, 0xffffffc)
                                }
                            }
                        }
                    }
                }
            }
        }
    } else {
        if sym < 192 {
            if sym < 160 {
                if sym < 144 {
                    if sym < 136 {
                        if sym < 132 {
                            if sym < 130 {
                                if sym < 129 {
                                    (20, 0xfffe6)
                                } else {
                                    (22, 0x3fffd2)
                                }
                            } else {
                                if sym < 131 {
                                    (20, 0xfffe7)
                                } else {
                                    (20, 0xfffe8)
                                }
                            }
                        } else {
                            if sym < 134 {
                                if sym < 133 {
                                    (22, 0x3fffd3)
                                } else {
                                    (22, 0x3fffd4)
                                }
                            } else {
                                if sym < 135 {
                                    (22, 0x3fffd5)
                                } else {
                                    (23, 0x7fffd9)
                                }
                            }
                        }
                    } else {
                        if sym < 140 {
                            if sym < 138 {
                                if sym < 137 {
                                    (22, 0x3fffd6)
                                } else {
                                    (23, 0x7fffda)
                                }
                            } else {
                                if sym < 139 {
                                    (23, 0x7fffdb)
                                } else {
                                    (23, 0x7fffdc)
                                }
                            }
                        } else {
                            if sym < 142 {
                                if sym < 141 {
                                    (23, 0x7fffdd)
                                } else {
                                    (23, 0x7fffde)
                                }
                            } else {
                                if sym < 143 {
                                    (24, 0xffffeb)
                                } else {
                                    (23, 0x7fffdf)
                                }
                            }
                        }
                    }
                } else {
                    if sym < 152 {
                        if sym < 148 {
                            if sym < 146 {
                                if sym < 145 {
                                    (24, 0xffffec)
                                } else {
                                    (24, 0xffffed)
                                }
                            } else {
                                if sym < 147 {
                                    (22, 0x3fffd7)
                                } else {
                                    (23, 0x7fffe0)
                                }
                            }
                        } else {
                            if sym < 150 {
                                if sym < 149 {
                                    (24, 0xffffee)
                                } else {
                                    (23, 0x7fffe1)
                                }
                            } else {
                                if sym < 151 {
                                    (23, 0x7fffe2)
                                } else {
                                    (23, 0x7fffe3)
                                }
                            }
                        }
                    } else {
                        if sym < 156 {
                            if sym < 154 {
                                if sym < 153 {
                                    (23, 0x7fffe4)
                                } else {
                                    (21, 0x1fffdc)
                                }
                            } else {
                                if sym < 155 {
                                    (22, 0x3fffd8)
                                } else {
                                    (23, 0x7fffe5)
                                }
                            }
                        } else {
                            if sym < 158 {
                                if sym < 157 {
                                    (22, 0x3fffd9)
                                } else {
                                    (23, 0x7fffe6)
                                }
                            } else {
                                if sym < 159 {
                                    (23, 0x7fffe7)
                                } else {
                                    (24, 0xffffef)
                                }
                            }
                        }
                    }
                }
            } else {
                if sym < 176 {
                    if sym < 168 {
                        if sym < 164 {
                            if sym < 162 {
                                if sym < 161 {
                                    (22, 0x3fffda)
                                } else {
                                    (21, 0x1fffdd)
                                }
                            } else {
                                if sym < 163 {
                                    (20, 0xfffe9)
                                } else {
                                    (22, 0x3fffdb)
                                }
                            }
                        } else {
                            if sym < 166 {
                                if sym < 165 {
                                    (22, 0x3fffdc)
                                } else {
                                    (23, 0x7fffe8)
                                }
                            } else {
                                if sym < 167 {
                                    (23, 0x7fffe9)
                                } else {
                                    (21, 0x1fffde)
                                }
                            }
                        }
                    } else {
                        if sym < 172 {
                            if sym < 170 {
                                if sym < 169 {
                                    (23, 0x7fffea)
                                } else {
                                    (22, 0x3fffdd)
                                }
                            } else {
                                if sym < 171 {
                                    (22, 0x3fffde)
                                } else {
                                    (24, 0xfffff0)
                                }
                            }
                        } else {
                            if sym < 174 {
                                if sym < 173 {
                                    (21, 0x1fffdf)
                                } else {
                                    (22, 0x3fffdf)
                                }
                            } else {
                                if sym < 175 {
                                    (23, 0x7fffeb)
                                } else {
                                    (23, 0x7fffec)
                                }
                            }
                        }
                    }
                } else {
                    if sym < 184 {
                        if sym < 180 {
                            if sym < 178 {
                                if sym < 177 {
                                    (21, 0x1fffe0)
                                } else {
                                    (21, 0x1fffe1)
                                }
                            } else {
                                if sym < 179 {
                                    (22, 0x3fffe0)
                                } else {
                                    (21, 0x1fffe2)
                                }
                            }
                        } else {
                            if sym < 182 {
                                if sym < 181 {
                                    (23, 0x7fffed)
                                } else {
                                    (22, 0x3fffe1)
                                }
                            } else {
                                if sym < 183 {
                                    (23, 0x7fffee)
                                } else {
                                    (23, 0x7fffef)
                                }
                            }
                        }
                    } else {
                        if sym < 188 {
                            if sym < 186 {
                                if sym < 185 {
                                    (20, 0xfffea)
                                } else {
                                    (22, 0x3fffe2)
                                }
                            } else {
                                if sym < 187 {
                                    (22, 0x3fffe3)
                                } else {
                                    (22, 0x3fffe4)
                                }
                            }
                        } else {
                            if sym < 190 {
                                if sym < 189 {
                                    (23, 0x7ffff0)
                                } else {
                                    (22, 0x3fffe5)
                                }
                            } else {
                                if sym < 191 {
                                    (22, 0x3fffe6)
                                } else {
                                    (23, 0x7ffff1)
                                }
                            }
                        }
                    }
                }
            }
        } else {
            if sym < 224 {
                if sym < 208 {
                    if sym < 200 {
                        if sym < 196 {
                            if sym < 194 {
                                if sym < 193 {
                                    (26, 0x3ffffe0)
                                } else {
                                    (26, 0x3ffffe1)
                                }
                            } else {
                                if sym < 195 {
                                    (20, 0xfffeb)
                                } else {
                                    (19, 0x7fff1)
                                }
                            }
                        } else {
                            if sym < 198 {
                                if sym < 197 {
                                    (22, 0x3fffe7)
                                } else {
                                    (23, 0x7ffff2)
                                }
                            } else {
                                if sym < 199 {
                                    (22, 0x3fffe8)
                                } else {
                                    (25, 0x1ffffec)
                                }
                            }
                        }
                    } else {
                        if sym < 204 {
                            if sym < 202 {
                                if sym < 201 {
                                    (26, 0x3ffffe2)
                                } else {
                                    (26, 0x3ffffe3)
                                }
                            } else {
                                if sym < 203 {
                                    (26, 0x3ffffe4)
                                } else {
                                    (27, 0x7ffffde)
                                }
                            }
                        } else {
                            if sym < 206 {
                                if sym < 205 {
                                    (27, 0x7ffffdf)
                                } else {
                                    (26, 0x3ffffe5)
                                }
                            } else {
                                if sym < 207 {
                                    (24, 0xfffff1)
                                } else {
                                    (25, 0x1ffffed)
                                }
                            }
                        }
                    }
                } else {
                    if sym < 216 {
                        if sym < 212 {
                            if sym < 210 {
                                if sym < 209 {
                                    (19, 0x7fff2)
                                } else {
                                    (21, 0x1fffe3)
                                }
                            } else {
                                if sym < 211 {
                                    (26, 0x3ffffe6)
                                } else {
                                    (27, 0x7ffffe0)
                                }
                            }
                        } else {
                            if sym < 214 {
                                if sym < 213 {
                                    (27, 0x7ffffe1)
                                } else {
                                    (26, 0x3ffffe7)
                                }
                            } else {
                                if sym < 215 {
                                    (27, 0x7ffffe2)
                                } else {
                                    (24, 0xfffff2)
                                }
                            }
                        }
                    } else {
                        if sym < 220 {
                            if sym < 218 {
                                if sym < 217 {
                                    (21, 0x1fffe4)
                                } else {
                                    (21, 0x1fffe5)
                                }
                            } else {
                                if sym < 219 {
                                    (26, 0x3ffffe8)
                                } else {
                                    (26, 0x3ffffe9)
                                }
                            }
                        } else {
                            if sym < 222 {
                                if sym < 221 {
                                    (28, 0xffffffd)
                                } else {
                                    (27, 0x7ffffe3)
                                }
                            } else {
                                if sym < 223 {
                                    (27, 0x7ffffe4)
                                } else {
                                    (27, 0x7ffffe5)
                                }
                            }
                        }
                    }
                }
            } else {
                if sym < 240 {
                    if sym < 232 {
                        if sym < 228 {
                            if sym < 226 {
                                if sym < 225 {
                                    (20, 0xfffec)
                                } else {
                                    (24, 0xfffff3)
                                }
                            } else {
                                if sym < 227 {
                                    (20, 0xfffed)
                                } else {
                                    (21, 0x1fffe6)
                                }
                            }
                        } else {
                            if sym < 230 {
                                if sym < 229 {
                                    (22, 0x3fffe9)
                                } else {
                                    (21, 0x1fffe7)
                                }
                            } else {
                                if sym < 231 {
                                    (21, 0x1fffe8)
                                } else {
                                    (23, 0x7ffff3)
                                }
                            }
                        }
                    } else {
                        if sym < 236 {
                            if sym < 234 {
                                if sym < 233 {
                                    (22, 0x3fffea)
                                } else {
                                    (22, 0x3fffeb)
                                }
                            } else {
                                if sym < 235 {
                                    (25, 0x1ffffee)
                                } else {
                                    (25, 0x1ffffef)
                                }
                            }
                        } else {
                            if sym < 238 {
                                if sym < 237 {
                                    (24, 0xfffff4)
                                } else {
                                    (24, 0xfffff5)
                                }
                            } else {
                                if sym < 239 {
                                    (26, 0x3ffffea)
                                } else {
                                    (23, 0x7ffff4)
                                }
                            }
                        }
                    }
                } else {
                    if sym < 248 {
                        if sym < 244 {
                            if sym < 242 {
                                if sym < 241 {
                                    (26, 0x3ffffeb)
                                } else {
                                    (27, 0x7ffffe6)
                                }
                            } else {
                                if sym < 243 {
                                    (26, 0x3ffffec)
                                } else {
                                    (26, 0x3ffffed)
                                }
                            }
                        } else {
                            if sym < 246 {
                                if sym < 245 {
                                    (27, 0x7ffffe7)
                                } else {
                                    (27, 0x7ffffe8)
                                }
                            } else {
                                if sym < 247 {
                                    (27, 0x7ffffe9)
                                } else {
                                    (27, 0x7ffffea)
                                }
                            }
                        }
                    } else {
                        if sym < 252 {
                            if sym < 250 {
                                if sym < 249 {
                                    (27, 0x7ffffeb)
                                } else {
                                    (28, 0xffffffe)
                                }
                            } else {
                                if sym < 251 {
                                    (27, 0x7ffffec)
                                } else {
                                    (27, 0x7ffffed)
                                }
                            }
                        } else {
                            if sym < 254 {
                                if sym < 253 {
                                    (27, 0x7ffffee)
                                } else {
                                    (27, 0x7ffffef)
                                }
                            } else {
                                if sym < 255 {
                                    (27, 0x7fffff0)
                                } else {
                                    if sym < 256 {
                                        (26, 0x3ffffee)
                                    } else {
                                        (30, 0x3fffffff)
                                    }
                                }
                            }
                        }
                    }
                }
            }
        }
    }
}

/// Bit length of the code of `sym`.
pub open spec fn code_len(sym: int) -> nat {
    huffman_code(sym).0
}

/// Right-aligned value of the code of `sym`.
pub open spec fn code_val(sym: int) -> nat {
    huffman_code(sym).1
}

/// Looks up the code of a symbol (an octet, or `256` for end-of-string).
pub fn code_of(sym: u16) -> (r: (u8, u32))
    requires
        sym <= 256,
    ensures
        r.0 as nat == code_len(sym as int),
        r.1 as nat == code_val(sym as int),
{
    let (l, c): (u8, u32) = {
        if sym < 128 {
            if sym < 64 {
                if sym < 32 {
                    if sym < 16 {
                        if sym < 8 {
                            if sym < 4 {
                                if sym < 2 {
                                    if sym < 1 {
                                        (13, 0x1ff8)
                                    } else {
                                        (23, 0x7fffd8)
                                    }
                                } else {
                                    if sym < 3 {
                                        (28, 0xfffffe2)
                                    } else {
                                        (28, 0xfffffe3)
                                    }
                                }
                            } else {
                                if sym < 6 {
                                    if sym < 5 {
                                        (28, 0xfffffe4)
                                    } else {
                                        (28, 0xfffffe5)
                                    }
                                } else {
                                    if sym < 7 {
                                        (28, 0xfffffe6)
                                    } else {
                                        (28, 0xfffffe7)
                                    }
                                }
                            }
                        } else {
                            if sym < 12 {
                                if sym < 10 {
                                    if sym < 9 {
                                        (28, 0xfffffe8)
                                    } else {
                                        (24, 0xffffea)
                                    }
                                } else {
                                    if sym < 11 {
                                        (30, 0x3ffffffc)
                                    } else {
                                        (28, 0xfffffe9)
                                    }
                                }
                            } else {
                                if sym < 14 {
                                    if sym < 13 {
                                        (28, 0xfffffea)
                                    } else {
                                        (30, 0x3ffffffd)
                                    }
                                } else {
                                    if sym < 15 {
                                        (28, 0xfffffeb)
                                    } else {
                                        (28, 0xfffffec)
                                    }
                                }
                            }
                        }
                    } else {
                        if sym < 24 {
                            if sym < 20 {
                                if sym < 18 {
                                    if sym < 17 {
                                        (28, 0xfffffed)
                                    } else {
                                        (28, 0xfffffee)
                                    }
                                } else {
                                    if sym < 19 {
                                        (28, 0xfffffef)
                                    } else {
                                        (28, 0xffffff0)
                                    }
                                }
                            } else {
                                if sym < 22 {
                                    if sym < 21 {
                                        (28, 0xffffff1)
                                    } else {
                                        (28, 0xffffff2)
                                    }
                                } else {
                                    if sym < 23 {
                                        (30, 0x3ffffffe)
                                    } else {
                                        (28, 0xffffff3)
                                    }
                                }
                            }
                        } else {
                            if sym < 28 {
                                if sym < 26 {
                                    if sym < 25 {
                                        (28, 0xffffff4)
                                    } else {
                                        (28, 0xffffff5)
                                    }
                                } else {
                                    if sym < 27 {
                                        (28, 0xffffff6)
                                    } else {
                                        (28, 0xffffff7)
                                    }
                                }
                            } else {
                                if sym < 30 {
                                    if sym < 29 {
                                        (28, 0xffffff8)
                                    } else {
                                        (28, 0xffffff9)
                                    }
                                } else {
                                    if sym < 31 {
                                        (28, 0xffffffa)
                                    } else {
                                        (28, 0xffffffb)
                                    }
                                }
                            }
                        }
                    }
                } else {
                    if sym < 48 {
                        if sym < 40 {
                            if sym < 36 {
                                if sym < 34 {
                                    if sym < 33 {
                                        (6, 0x14)
                                    } else {
                                        (10, 0x3f8)
                                    }
                                } else {
                                    if sym < 35 {
                                        (10, 0x3f9)
                                    } else {
                                        (12, 0xffa)
                                    }
                                }
                            } else {
                                if sym < 38 {
                                    if sym < 37 {
                                        (13, 0x1ff9)
                                    } else {
                                        (6, 0x15)
                                    }
                                } else {
                                    if sym < 39 {
                                        (8, 0xf8)
                                    } else {
                                        (11, 0x7fa)
                                    }
                                }
                            }
                        } else {
                            if sym < 44 {
                                if sym < 42 {
                                    if sym < 41 {
                                        (10, 0x3fa)
                                    } else {
                                        (10, 0x3fb)
                                    }
                                } else {
                                    if sym < 43 {
                                        (8, 0xf9)
                                    } else {
                                        (11, 0x7fb)
                                    }
                                }
                            } else {
                                if sym < 46 {
                                    if sym < 45 {
                                        (8, 0xfa)
                                    } else {
                                        (6, 0x16)
                                    }
                                } else {
                                    if sym < 47 {
                                        (6, 0x17)
                                    } else {
                                        (6, 0x18)
                                    }
                                }
                            }
                        }
                    } else {
                        if sym < 56 {
                            if sym < 52 {
                                if sym < 50 {
                                    if sym < 49 {
                                        (5, 0x0)
                                    } else {
                                        (5, 0x1)
                                    }
                                } else {
                                    if sym < 51 {
                                        (5, 0x2)
                                    } else {
                                        (6, 0x19)
                                    }
                                }
                            } else {
                                if sym < 54 {
                                    if sym < 53 {
                                        (6, 0x1a)
                                    } else {
                                        (6, 0x1b)
                                    }
                                } else {
                                    if sym < 55 {
                                        (6, 0x1c)
                                    } else {
                                        (6, 0x1d)
                                    }
                                }
                            }
                        } else {
                            if sym < 60 {
                                if sym < 58 {
                                    if sym < 57 {
                                        (6, 0x1e)
                                    } else {
                                        (6, 0x1f)
                                    }
                                } else {
                                    if sym < 59 {
                                        (7, 0x5c)
                                    } else {
                                        (8, 0xfb)
                                    }
                                }
                            } else {
                                if sym < 62 {
                                    if sym < 61 {
                                        (15, 0x7ffc)
                                    } else {
                                        (6, 0x20)
                                    }
                                } else {
                                    if sym < 63 {
                                        (12, 0xffb)
                                    } else {
                                        (10, 0x3fc)
                                    }
                                }
                            }
                        }
                    }
                }
            } else {
                if sym < 96 {
                    if sym < 80 {
                        if sym < 72 {
                            if sym < 68 {
                                if sym < 66 {
                                    if sym < 65 {
                                        (13, 0x1ffa)
                                    } else {
                                        (6, 0x21)
                                    }
                                } else {
                                    if sym < 67 {
                                        (7, 0x5d)
                                    } else {
                                        (7, 0x5e)
                                    }
                                }
                            } else {
                                if sym < 70 {
                                    if sym < 69 {
                                        (7, 0x5f)
                                    } else {
                                        (7, 0x60)
                                    }
                                } else {
                                    if sym < 71 {
                                        (7, 0x61)
                                    } else {
                                        (7, 0x62)
                                    }
                                }
                            }
                        } else {
                            if sym < 76 {
                                if sym < 74 {
                                    if sym < 73 {
                                        (7, 0x63)
                                    } else {
                                        (7, 0x64)
                                    }
                                } else {
                                    if sym < 75 {
                                        (7, 0x65)
                                    } else {
                                        (7, 0x66)
                                    }
                                }
                            } else {
                                if sym < 78 {
                                    if sym < 77 {
                                        (7, 0x67)
                                    } else {
                                        (7, 0x68)
                                    }
                                } else {
                                    if sym < 79 {
                                        (7, 0x69)
                                    } else {
                                        (7, 0x6a)
                                    }
                                }
                            }
                        }
                    } else {
                        if sym < 88 {
                            if sym < 84 {
                                if sym < 82 {
                                    if sym < 81 {
                                        (7, 0x6b)
                                    } else {
                                        (7, 0x6c)
                                    }
                                } else {
                                    if sym < 83 {
                                        (7, 0x6d)
                                    } else {
                                        (7, 0x6e)
                                    }
                                }
                            } else {
                                if sym < 86 {
                                    if sym < 85 {
                                        (7, 0x6f)
                                    } else {
                                        (7, 0x70)
                                    }
                                } else {
                                    if sym < 87 {
                                        (7, 0x71)
                                    } else {
                                        (7, 0x72)
                                    }
                                }
                            }
                        } else {
                            if sym < 92 {
                                if sym < 90 {
                                    if sym < 89 {
                                        (8, 0xfc)
                                    } else {
                                        (7, 0x73)
                                    }
                                } else {
                                    if sym < 91 {
                                        (8, 0xfd)
                                    } else {
                                        (13, 0x1ffb)
                                    }
                                }
                            } else {
                                if sym < 94 {
                                    if sym < 93 {
                                        (19, 0x7fff0)
                                    } else {
                                        (13, 0x1ffc)
                                    }
                                } else {
                                    if sym < 95 {
                                        (14, 0x3ffc)
                                    } else {
                                        (6, 0x22)
                                    }
                                }
                            }
                        }
                    }
                } else {
                    if sym < 112 {
                        if sym < 104 {
                            if sym < 100 {
                                if sym < 98 {
                                    if sym < 97 {
                                        (15, 0x7ffd)
                                    } else {
                                        (5, 0x3)
                                    }
                                } else {
                                    if sym < 99 {
                                        (6, 0x23)
                                    } else {
                                        (5, 0x4)
                                    }
                                }
                            } else {
                                if sym < 102 {
                                    if sym < 101 {
                                        (6, 0x24)
                                    } else {
                                        (5, 0x5)
                                    }
                                } else {
                                    if sym < 103 {
                                        (6, 0x25)
                                    } else {
                                        (6, 0x26)
                                    }
                                }
                            }
                        } else {
                            if sym < 108 {
                                if sym < 106 {
                                    if sym < 105 {
                                        (6, 0x27)
                                    } else {
                                        (5, 0x6)
                                    }
                                } else {
                                    if sym < 107 {
                                        (7, 0x74)
                                    } else {
                                        (7, 0x75)
                                    }
                                }
                            } else {
                                if sym < 110 {
                                    if sym < 109 {
                                        (6, 0x28)
                                    } else {
                                        (6, 0x29)
                                    }
                                } else {
                                    if sym < 111 {
                                        (6, 0x2a)
                                    } else {
                                        (5, 0x7)
                                    }
                                }
                            }
                        }
                    } else {
                        if sym < 120 {
                            if sym < 116 {
                                if sym < 114 {
                                    if sym < 113 {
                                        (6, 0x2b)
                                    } else {
                                        (7, 0x76)
                                    }
                                } else {
                                    if sym < 115 {
                                        (6, 0x2c)
                                    } else {
                                        (5, 0x8)
                                    }
                                }
                            } else {
                                if sym < 118 {
                                    if sym < 117 {
                                        (5, 0x9)
                                    } else {
                                        (6, 0x2d)
                                    }
                                } else {
                                    if sym < 119 {
                                        (7, 0x77)
                                    } else {
                                        (7, 0x78)
                                    }
                                }
                            }
                        } else {
                            if sym < 124 {
                                if sym < 122 {
                                    if sym < 121 {
                                        (7, 0x79)
                                    } else {
                                        (7, 0x7a)
                                    }
                                } else {
                                    if sym < 123 {
                                        (7, 0x7b)
                                    } else {
                                        (15, 0x7ffe)
                                    }
                                }
                            } else {
                                if sym < 126 {
                                    if sym < 125 {
                                        (11, 0x7fc)
                                    } else {
                                        (14, 0x3ffd)
                                    }
                                } else {
                                    if sym < 127 {
                                        (13, 0x1ffd)
                                    } else {
                                        (28, 0xffffffc)
                                    }
                                }
                            }
                        }
                    }
                }
            }
        } else {
            if sym < 192 {
                if sym < 160 {
                    if sym < 144 {
                        if sym < 136 {
                            if sym < 132 {
                                if sym < 130 {
                                    if sym < 129 {
                                        (20, 0xfffe6)
                                    } else {
                                        (22, 0x3fffd2)
                                    }
                                } else {
                                    if sym < 131 {
                                        (20, 0xfffe7)
                                    } else {
                                        (20, 0xfffe8)
                                    }
                                }
                            } else {
                                if sym < 134 {
                                    if sym < 133 {
                                        (22, 0x3fffd3)
                                    } else {
                                        (22, 0x3fffd4)
                                    }
                                } else {
                                    if sym < 135 {
                                        (22, 0x3fffd5)
                                    } else {
                                        (23, 0x7fffd9)
                                    }
                                }
                            }
                        } else {
                            if sym < 140 {
                                if sym < 138 {
                                    if sym < 137 {
                                        (22, 0x3fffd6)
                                    } else {
                                        (23, 0x7fffda)
                                    }
                                } else {
                                    if sym < 139 {
                                        (23, 0x7fffdb)
                                    } else {
                                        (23, 0x7fffdc)
                                    }
                                }
                            } else {
                                if sym < 142 {
                                    if sym < 141 {
                                        (23, 0x7fffdd)
                                    } else {
                                        (23, 0x7fffde)
                                    }
                                } else {
                                    if sym < 143 {
                                        (24, 0xffffeb)
                                    } else {
                                        (23, 0x7fffdf)
                                    }
                                }
                            }
                        }
                    } else {
                        if sym < 152 {
                            if sym < 148 {
                                if sym < 146 {
                                    if sym < 145 {
                                        (24, 0xffffec)
                                    } else {
                                        (24, 0xffffed)
                                    }
                                } else {
                                    if sym < 147 {
                                        (22, 0x3fffd7)
                                    } else {
                                        (23, 0x7fffe0)
                                    }
                                }
                            } else {
                                if sym < 150 {
                                    if sym < 149 {
                                        (24, 0xffffee)
                                    } else {
                                        (23, 0x7fffe1)
                                    }
                                } else {
                                    if sym < 151 {
                                        (23, 0x7fffe2)
                                    } else {
                                        (23, 0x7fffe3)
                                    }
                                }
                            }
                        } else {
                            if sym < 156 {
                                if sym < 154 {
                                    if sym < 153 {
                                        (23, 0x7fffe4)
                                    } else {
                                        (21, 0x1fffdc)
                                    }
                                } else {
                                    if sym < 155 {
                                        (22, 0x3fffd8)
                                    } else {
                                        (23, 0x7fffe5)
                                    }
                                }
                            } else {
                                if sym < 158 {
                                    if sym < 157 {
                                        (22, 0x3fffd9)
                                    } else {
                                        (23, 0x7fffe6)
                                    }
                                } else {
                                    if sym < 159 {
                                        (23, 0x7fffe7)
                                    } else {
                                        (24, 0xffffef)
                                    }
                                }
                            }
                        }
                    }
                } else {
                    if sym < 176 {
                        if sym < 168 {
                            if sym < 164 {
                                if sym < 162 {
                                    if sym < 161 {
                                        (22, 0x3fffda)
                                    } else {
                                        (21, 0x1fffdd)
                                    }
                                } else {
                                    if sym < 163 {
                                        (20, 0xfffe9)
                                    } else {
                                        (22, 0x3fffdb)
                                    }
                                }
                            } else {
                                if sym < 166 {
                                    if sym < 165 {
                                        (22, 0x3fffdc)
                                    } else {
                                        (23, 0x7fffe8)
                                    }
                                } else {
                                    if sym < 167 {
                                        (23, 0x7fffe9)
                                    } else {
                                        (21, 0x1fffde)
                                    }
                                }
                            }
                        } else {
                            if sym < 172 {
                                if sym < 170 {
                                    if sym < 169 {
                                        (23, 0x7fffea)
                                    } else {
                                        (22, 0x3fffdd)
                                    }
                                } else {
                                    if sym < 171 {
                                        (22, 0x3fffde)
                                    } else {
                                        (24, 0xfffff0)
                                    }
                                }
                            } else {
                                if sym < 174 {
                                    if sym < 173 {
                                        (21, 0x1fffdf)
                                    } else {
                                        (22, 0x3fffdf)
                                    }
                                } else {
                                    if sym < 175 {
                                        (23, 0x7fffeb)
                                    } else {
                                        (23, 0x7fffec)
                                    }
                                }
                            }
                        }
                    } else {
                        if sym < 184 {
                            if sym < 180 {
                                if sym < 178 {
                                    if sym < 177 {
                                        (21, 0x1fffe0)
                                    } else {
                                        (21, 0x1fffe1)
                                    }
                                } else {
                                    if sym < 179 {
                                        (22, 0x3fffe0)
                                    } else {
                                        (21, 0x1fffe2)
                                    }
                                }
                            } else {
                                if sym < 182 {
                                    if sym < 181 {
                                        (23, 0x7fffed)
                                    } else {
                                        (22, 0x3fffe1)
                                    }
                                } else {
                                    if sym < 183 {
                                        (23, 0x7fffee)
                                    } else {
                                        (23, 0x7fffef)
                                    }
                                }
                            }
                        } else {
                            if sym < 188 {
                                if sym < 186 {
                                    if sym < 185 {
                                        (20, 0xfffea)
                                    } else {
                                        (22, 0x3fffe2)
                                    }
                                } else {
                                    if sym < 187 {
                                        (22, 0x3fffe3)
                                    } else {
                                        (22, 0x3fffe4)
                                    }
                                }
                            } else {
                                if sym < 190 {
                                    if sym < 189 {
                                        (23, 0x7ffff0)
                                    } else {
                                        (22, 0x3fffe5)
                                    }
                                } else {
                                    if sym < 191 {
                                        (22, 0x3fffe6)
                                    } else {
                                        (23, 0x7ffff1)
                                    }
                                }
                            }
                        }
                    }
                }
            } else {
                if sym < 224 {
                    if sym < 208 {
                        if sym < 200 {
                            if sym < 196 {
                                if sym < 194 {
                                    if sym < 193 {
                                        (26, 0x3ffffe0)
                                    } else {
                                        (26, 0x3ffffe1)
                                    }
                                } else {
                                    if sym < 195 {
                                        (20, 0xfffeb)
                                    } else {
                                        (19, 0x7fff1)
                                    }
                                }
                            } else {
                                if sym < 198 {
                                    if sym < 197 {
                                        (22, 0x3fffe7)
                                    } else {
                                        (23, 0x7ffff2)
                                    }
                                } else {
                                    if sym < 199 {
                                        (22, 0x3fffe8)
                                    } else {
                                        (25, 0x1ffffec)
                                    }
                                }
                            }
                        } else {
                            if sym < 204 {
                                if sym < 202 {
                                    if sym < 201 {
                                        (26, 0x3ffffe2)
                                    } else {
                                        (26, 0x3ffffe3)
                                    }
                                } else {
                                    if sym < 203 {
                                        (26, 0x3ffffe4)
                                    } else {
                                        (27, 0x7ffffde)
                                    }
                                }
                            } else {
                                if sym < 206 {
                                    if sym < 205 {
                                        (27, 0x7ffffdf)
                                    } else {
                                        (26, 0x3ffffe5)
                                    }
                                } else {
                                    if sym < 207 {
                                        (24, 0xfffff1)
                                    } else {
                                        (25, 0x1ffffed)
                                    }
                                }
                            }
                        }
                    } else {
                        if sym < 216 {
                            if sym < 212 {
                                if sym < 210 {
                                    if sym < 209 {
                                        (19, 0x7fff2)
                                    } else {
                                        (21, 0x1fffe3)
                                    }
                                } else {
                                    if sym < 211 {
                                        (26, 0x3ffffe6)
                                    } else {
                                        (27, 0x7ffffe0)
                                    }
                                }
                            } else {
                                if sym < 214 {
                                    if sym < 213 {
                                        (27, 0x7ffffe1)
                                    } else {
                                        (26, 0x3ffffe7)
                                    }
                                } else {
                                    if sym < 215 {
                                        (27, 0x7ffffe2)
                                    } else {
                                        (24, 0xfffff2)
                                    }
                                }
                            }
                        } else {
                            if sym < 220 {
                                if sym < 218 {
                                    if sym < 217 {
                                        (21, 0x1fffe4)
                                    } else {
                                        (21, 0x1fffe5)
                                    }
                                } else {
                                    if sym < 219 {
                                        (26, 0x3ffffe8)
                                    } else {
                                        (26, 0x3ffffe9)
                                    }
                                }
                            } else {
                                if sym < 222 {
                                    if sym < 221 {
                                        (28, 0xffffffd)
                                    } else {
                                        (27, 0x7ffffe3)
                                    }
                                } else {
                                    if sym < 223 {
                                        (27, 0x7ffffe4)
                                    } else {
                                        (27, 0x7ffffe5)
                                    }
                                }
                            }
                        }
                    }
                } else {
                    if sym < 240 {
                        if sym < 232 {
                            if sym < 228 {
                                if sym < 226 {
                                    if sym < 225 {
                                        (20, 0xfffec)
                                    } else {
                                        (24, 0xfffff3)
                                    }
                                } else {
                                    if sym < 227 {
                                        (20, 0xfffed)
                                    } else {
                                        (21, 0x1fffe6)
                                    }
                                }
                            } else {
                                if sym < 230 {
                                    if sym < 229 {
                                        (22, 0x3fffe9)
                                    } else {
                                        (21, 0x1fffe7)
                                    }
                                } else {
                                    if sym < 231 {
                                        (21, 0x1fffe8)
                                    } else {
                                        (23, 0x7ffff3)
                                    }
                                }
                            }
                        } else {
                            if sym < 236 {
                                if sym < 234 {
                                    if sym < 233 {
                                        (22, 0x3fffea)
                                    } else {
                                        (22, 0x3fffeb)
                                    }
                                } else {
                                    if sym < 235 {
                                        (25, 0x1ffffee)
                                    } else {
                                        (25, 0x1ffffef)
                                    }
                                }
                            } else {
                                if sym < 238 {
                                    if sym < 237 {
                                        (24, 0xfffff4)
                                    } else {
                                        (24, 0xfffff5)
                                    }
                                } else {
                                    if sym < 239 {
                                        (26, 0x3ffffea)
                                    } else {
                                        (23, 0x7ffff4)
                                    }
                                }
                            }
                        }
                    } else {
                        if sym < 248 {
                            if sym < 244 {
                                if sym < 242 {
                                    if sym < 241 {
                                        (26, 0x3ffffeb)
                                    } else {
                                        (27, 0x7ffffe6)
                                    }
                                } else {
                                    if sym < 243 {
                                        (26, 0x3ffffec)
                                    } else {
                                        (26, 0x3ffffed)
                                    }
                                }
                            } else {
                                if sym < 246 {
                                    if sym < 245 {
                                        (27, 0x7ffffe7)
                                    } else {
                                        (27, 0x7ffffe8)
                                    }
                                } else {
                                    if sym < 247 {
                                        (27, 0x7ffffe9)
                                    } else {
                                        (27, 0x7ffffea)
                                    }
                                }
                            }
                        } else {
                            if sym < 252 {
                                if sym < 250 {
                                    if sym < 249 {
                                        (27, 0x7ffffeb)
                                    } else {
                                        (28, 0xffffffe)
                                    }
                                } else {
                                    if sym < 251 {
                                        (27, 0x7ffffec)
                                    } else {
                                        (27, 0x7ffffed)
                                    }
                                }
                            } else {
                                if sym < 254 {
                                    if sym < 253 {
                                        (27, 0x7ffffee)
                                    } else {
                                        (27, 0x7ffffef)
                                    }
                                } else {
                                    if sym < 255 {
                                        (27, 0x7fffff0)
                                    } else {
                                        if sym < 256 {
                                            (26, 0x3ffffee)
                                        } else {
                                            (30, 0x3fffffff)
                                        }
                                    }
                                }
                            }
                        }
                    }
                }
            }
        }
    };
    (l, c)
}

/// Every code is between 5 and 30 bits long and fits in its length.
pub proof fn lemma_code_bounds(sym: int)
    requires
        0 <= sym <= 256,
    ensures
        5 <= code_len(sym) <= 30,
        code_val(sym) < pow2(code_len(sym)),
{
    lemma2_to64();
}


/// The symbols in canonical order (by code length, then by value), each
/// with the interval `start .. start + span` of 30-bit strings its code
/// begins.
pub open spec fn canonical(k: int) -> (int, nat, nat) {
    if k < 128 {
        if k < 64 {
            if k < 32 {
                if k < 16 {
                    if k < 8 {
                        if k < 4 {
                            if k < 2 {
                                if k < 1 {
                                    (48, 0x0, 0x2000000)
                                } else {
                                    (49, 0x2000000, 0x2000000)
                                }
                            } else {
                                if k < 3 {
                                    (50, 0x4000000, 0x2000000)
                                } else {
                                    (97, 0x6000000, 0x2000000)
                                }
                            }
                        } else {
                            if k < 6 {
                                if k < 5 {
                                    (99, 0x8000000, 0x2000000)
                                } else {
                                    (101, 0xa000000, 0x2000000)
                                }
                            } else {
                                if k < 7 {
                                    (105, 0xc000000, 0x2000000)
                                } else {
                                    (111, 0xe000000, 0x2000000)
                                }
                            }
                        }
                    } else {
                        if k < 12 {
                            if k < 10 {
                                if k < 9 {
                                    (115, 0x10000000, 0x2000000)
                                } else {
                                    (116, 0x12000000, 0x2000000)
                                }
                            } else {
                                if k < 11 {
                                    (32, 0x14000000, 0x1000000)
                                } else {
                                    (37, 0x15000000, 0x1000000)
                                }
                            }
                        } else {
                            if k < 14 {
                                if k < 13 {
                                    (45, 0x16000000, 0x1000000)
                                } else {
                                    (46, 0x17000000, 0x1000000)
                                }
                            } else {
                                if k < 15 {
                                    (47, 0x18000000, 0x1000000)
                                } else {
                                    (51, 0x19000000, 0x1000000)
                                }
                            }
                        }
                    }
                } else {
                    if k < 24 {
                        if k < 20 {
                            if k < 18 {
                                if k < 17 {
                                    (52, 0x1a000000, 0x1000000)
                                } else {
                                    (53, 0x1b000000, 0x1000000)
                                }
                            } else {
                                if k < 19 {
                                    (54, 0x1c000000, 0x1000000)
                                } else {
                                    (55, 0x1d000000, 0x1000000)
                                }
                            }
                        } else {
                            if k < 22 {
                                if k < 21 {
                                    (56, 0x1e000000, 0x1000000)
                                } else {
                                    (57, 0x1f000000, 0x1000000)
                                }
                            } else {
                                if k < 23 {
                                    (61, 0x20000000, 0x1000000)
                                } else {
                                    (65, 0x21000000, 0x1000000)
                                }
                            }
                        }
                    } else {
                        if k < 28 {
                            if k < 26 {
                                if k < 25 {
                                    (95, 0x22000000, 0x1000000)
                                } else {
                                    (98, 0x23000000, 0x1000000)
                                }
                            } else {
                                if k < 27 {
                                    (100, 0x24000000, 0x1000000)
                                } else {
                                    (102, 0x25000000, 0x1000000)
                                }
                            }
                        } else {
                            if k < 30 {
                                if k < 29 {
                                    (103, 0x26000000, 0x1000000)
                                } else {
                                    (104, 0x27000000, 0x1000000)
                                }
                            } else {
                                if k < 31 {
                                    (108, 0x28000000, 0x1000000)
                                } else {
                                    (109, 0x29000000, 0x1000000)
                                }
                            }
                        }
                    }
                }
            } else {
                if k < 48 {
                    if k < 40 {
                        if k < 36 {
                            if k < 34 {
                                if k < 33 {
                                    (110, 0x2a000000, 0x1000000)
                                } else {
                                    (112, 0x2b000000, 0x1000000)
                                }
                            } else {
                                if k < 35 {
                                    (114, 0x2c000000, 0x1000000)
                                } else {
                                    (117, 0x2d000000, 0x1000000)
                                }
                            }
                        } else {
                            if k < 38 {
                                if k < 37 {
                                    (58, 0x2e000000, 0x800000)
                                } else {
                                    (66, 0x2e800000, 0x800000)
                                }
                            } else {
                                if k < 39 {
                                    (67, 0x2f000000, 0x800000)
                                } else {
                                    (68, 0x2f800000, 0x800000)
                                }
                            }
                        }
                    } else {
                        if k < 44 {
                            if k < 42 {
                                if k < 41 {
                                    (69, 0x30000000, 0x800000)
                                } else {
                                    (70, 0x30800000, 0x800000)
                                }
                            } else {
                                if k < 43 {
                                    (71, 0x31000000, 0x800000)
                                } else {
                                    (72, 0x31800000, 0x800000)
                                }
                            }
                        } else {
                            if k < 46 {
                                if k < 45 {
                                    (73, 0x32000000, 0x800000)
                                } else {
                                    (74, 0x32800000, 0x800000)
                                }
                            } else {
                                if k < 47 {
                                    (75, 0x33000000, 0x800000)
                                } else {
                                    (76, 0x33800000, 0x800000)
                                }
                            }
                        }
                    }
                } else {
                    if k < 56 {
                        if k < 52 {
                            if k < 50 {
                                if k < 49 {
                                    (77, 0x34000000, 0x800000)
                                } else {
                                    (78, 0x34800000, 0x800000)
                                }
                            } else {
                                if k < 51 {
                                    (79, 0x35000000, 0x800000)
                                } else {
                                    (80, 0x35800000, 0x800000)
                                }
                            }
                        } else {
                            if k < 54 {
                                if k < 53 {
                                    (81, 0x36000000, 0x800000)
                                } else {
                                    (82, 0x36800000, 0x800000)
                                }
                            } else {
                                if k < 55 {
                                    (83, 0x37000000, 0x800000)
                                } else {
                                    (84, 0x37800000, 0x800000)
                                }
                            }
                        }
                    } else {
                        if k < 60 {
                            if k < 58 {
                                if k < 57 {
                                    (85, 0x38000000, 0x800000)
                                } else {
                                    (86, 0x38800000, 0x800000)
                                }
                            } else {
                                if k < 59 {
                                    (87, 0x39000000, 0x800000)
                                } else {
                                    (89, 0x39800000, 0x800000)
                                }
                            }
                        } else {
                            if k < 62 {
                                if k < 61 {
                                    (106, 0x3a000000, 0x800000)
                                } else {
                                    (107, 0x3a800000, 0x800000)
                                }
                            } else {
                                if k < 63 {
                                    (113, 0x3b000000, 0x800000)
                                } else {
                                    (118, 0x3b800000, 0x800000)
                                }
                            }
                        }
                    }
                }
            }
        } else {
            if k < 96 {
                if k < 80 {
                    if k < 72 {
                        if k < 68 {
                            if k < 66 {
                                if k < 65 {
                                    (119, 0x3c000000, 0x800000)
                                } else {
                                    (120, 0x3c800000, 0x800000)
                                }
                            } else {
                                if k < 67 {
                                    (121, 0x3d000000, 0x800000)
                                } else {
                                    (122, 0x3d800000, 0x800000)
                                }
                            }
                        } else {
                            if k < 70 {
                                if k < 69 {
                                    (38, 0x3e000000, 0x400000)
                                } else {
                                    (42, 0x3e400000, 0x400000)
                                }
                            } else {
                                if k < 71 {
                                    (44, 0x3e800000, 0x400000)
                                } else {
                                    (59, 0x3ec00000, 0x400000)
                                }
                            }
                        }
                    } else {
                        if k < 76 {
                            if k < 74 {
                                if k < 73 {
                                    (88, 0x3f000000, 0x400000)
                                } else {
                                    (90, 0x3f400000, 0x400000)
                                }
                            } else {
                                if k < 75 {
                                    (33, 0x3f800000, 0x100000)
                                } else {
                                    (34, 0x3f900000, 0x100000)
                                }
                            }
                        } else {
                            if k < 78 {
                                if k < 77 {
                                    (40, 0x3fa00000, 0x100000)
                                } else {
                                    (41, 0x3fb00000, 0x100000)
                                }
                            } else {
                                if k < 79 {
                                    (63, 0x3fc00000, 0x100000)
                                } else {
                                    (39, 0x3fd00000, 0x80000)
                                }
                            }
                        }
                    }
                } else {
                    if k < 88 {
                        if k < 84 {
                            if k < 82 {
                                if k < 81 {
                                    (43, 0x3fd80000, 0x80000)
                                } else {
                                    (124, 0x3fe00000, 0x80000)
                                }
                            } else {
                                if k < 83 {
                                    (35, 0x3fe80000, 0x40000)
                                } else {
                                    (62, 0x3fec0000, 0x40000)
                                }
                            }
                        } else {
                            if k < 86 {
                                if k < 85 {
                                    (0, 0x3ff00000, 0x20000)
                                } else {
                                    (36, 0x3ff20000, 0x20000)
                                }
                            } else {
                                if k < 87 {
                                    (64, 0x3ff40000, 0x20000)
                                } else {
                                    (91, 0x3ff60000, 0x20000)
                                }
                            }
                        }
                    } else {
                        if k < 92 {
                            if k < 90 {
                                if k < 89 {
                                    (93, 0x3ff80000, 0x20000)
                                } else {
                                    (126, 0x3ffa0000, 0x20000)
                                }
                            } else {
                                if k < 91 {
                                    (94, 0x3ffc0000, 0x10000)
                                } else {
                                    (125, 0x3ffd0000, 0x10000)
                                }
                            }
                        } else {
                            if k < 94 {
                                if k < 93 {
                                    (60, 0x3ffe0000, 0x8000)
                                } else {
                                    (96, 0x3ffe8000, 0x8000)
                                }
                            } else {
                                if k < 95 {
                                    (123, 0x3fff0000, 0x8000)
                                } else {
                                    (92, 0x3fff8000, 0x800)
                                }
                            }
                        }
                    }
                }
            } else {
                if k < 112 {
                    if k < 104 {
                        if k < 100 {
                            if k < 98 {
                                if k < 97 {
                                    (195, 0x3fff8800, 0x800)
                                } else {
                                    (208, 0x3fff9000, 0x800)
                                }
                            } else {
                                if k < 99 {
                                    (128, 0x3fff9800, 0x400)
                                } else {
                                    (130, 0x3fff9c00, 0x400)
                                }
                            }
                        } else {
                            if k < 102 {
                                if k < 101 {
                                    (131, 0x3fffa000, 0x400)
                                } else {
                                    (162, 0x3fffa400, 0x400)
                                }
                            } else {
                                if k < 103 {
                                    (184, 0x3fffa800, 0x400)
                                } else {
                                    (194, 0x3fffac00, 0x400)
                                }
                            }
                        }
                    } else {
                        if k < 108 {
                            if k < 106 {
                                if k < 105 {
                                    (224, 0x3fffb000, 0x400)
                                } else {
                                    (226, 0x3fffb400, 0x400)
                                }
                            } else {
                                if k < 107 {
                                    (153, 0x3fffb800, 0x200)
                                } else {
                                    (161, 0x3fffba00, 0x200)
                                }
                            }
                        } else {
                            if k < 110 {
                                if k < 109 {
                                    (167, 0x3fffbc00, 0x200)
                                } else {
                                    (172, 0x3fffbe00, 0x200)
                                }
                            } else {
                                if k < 111 {
                                    (176, 0x3fffc000, 0x200)
                                } else {
                                    (177, 0x3fffc200, 0x200)
                                }
                            }
                        }
                    }
                } else {
                    if k < 120 {
                        if k < 116 {
                            if k < 114 {
                                if k < 113 {
                                    (179, 0x3fffc400, 0x200)
                                } else {
                                    (209, 0x3fffc600, 0x200)
                                }
                            } else {
                                if k < 115 {
                                    (216, 0x3fffc800, 0x200)
                                } else {
                                    (217, 0x3fffca00, 0x200)
                                }
                            }
                        } else {
                            if k < 118 {
                                if k < 117 {
                                    (227, 0x3fffcc00, 0x200)
                                } else {
                                    (229, 0x3fffce00, 0x200)
                                }
                            } else {
                                if k < 119 {
                                    (230, 0x3fffd000, 0x200)
                                } else {
                                    (129, 0x3fffd200, 0x100)
                                }
                            }
                        }
                    } else {
                        if k < 124 {
                            if k < 122 {
                                if k < 121 {
                                    (132, 0x3fffd300, 0x100)
                                } else {
                                    (133, 0x3fffd400, 0x100)
                                }
                            } else {
                                if k < 123 {
                                    (134, 0x3fffd500, 0x100)
                                } else {
                                    (136, 0x3fffd600, 0x100)
                                }
                            }
                        } else {
                            if k < 126 {
                                if k < 125 {
                                    (146, 0x3fffd700, 0x100)
                                } else {
                                    (154, 0x3fffd800, 0x100)
                                }
                            } else {
                                if k < 127 {
                                    (156, 0x3fffd900, 0x100)
                                } else {
                                    (160, 0x3fffda00, 0x100)
                                }
                            }
                        }
                    }
                }
            }
        }
    } else {
        if k < 192 {
            if k < 160 {
                if k < 144 {
                    if k < 136 {
                        if k < 132 {
                            if k < 130 {
                                if k < 129 {
                                    (163, 0x3fffdb00, 0x100)
                                } else {
                                    (164, 0x3fffdc00, 0x100)
                                }
                            } else {
                                if k < 131 {
                                    (169, 0x3fffdd00, 0x100)
                                } else {
                                    (170, 0x3fffde00, 0x100)
                                }
                            }
                        } else {
                            if k < 134 {
                                if k < 133 {
                                    (173, 0x3fffdf00, 0x100)
                                } else {
                                    (178, 0x3fffe000, 0x100)
                                }
                            } else {
                                if k < 135 {
                                    (181, 0x3fffe100, 0x100)
                                } else {
                                    (185, 0x3fffe200, 0x100)
                                }
                            }
                        }
                    } else {
                        if k < 140 {
                            if k < 138 {
                                if k < 137 {
                                    (186, 0x3fffe300, 0x100)
                                } else {
                                    (187, 0x3fffe400, 0x100)
                                }
                            } else {
                                if k < 139 {
                                    (189, 0x3fffe500, 0x100)
                                } else {
                                    (190, 0x3fffe600, 0x100)
                                }
                            }
                        } else {
                            if k < 142 {
                                if k < 141 {
                                    (196, 0x3fffe700, 0x100)
                                } else {
                                    (198, 0x3fffe800, 0x100)
                                }
                            } else {
                                if k < 143 {
                                    (228, 0x3fffe900, 0x100)
                                } else {
                                    (232, 0x3fffea00, 0x100)
                                }
                            }
                        }
                    }
                } else {
                    if k < 152 {
                        if k < 148 {
                            if k < 146 {
                                if k < 145 {
                                    (233, 0x3fffeb00, 0x100)
                                } else {
                                    (1, 0x3fffec00, 0x80)
                                }
                            } else {
                                if k < 147 {
                                    (135, 0x3fffec80, 0x80)
                                } else {
                                    (137, 0x3fffed00, 0x80)
                                }
                            }
                        } else {
                            if k < 150 {
                                if k < 149 {
                                    (138, 0x3fffed80, 0x80)
                                } else {
                                    (139, 0x3fffee00, 0x80)
                                }
                            } else {
                                if k < 151 {
                                    (140, 0x3fffee80, 0x80)
                                } else {
                                    (141, 0x3fffef00, 0x80)
                                }
                            }
                        }
                    } else {
                        if k < 156 {
                            if k < 154 {
                                if k < 153 {
                                    (143, 0x3fffef80, 0x80)
                                } else {
                                    (147, 0x3ffff000, 0x80)
                                }
                            } else {
                                if k < 155 {
                                    (149, 0x3ffff080, 0x80)
                                } else {
                                    (150, 0x3ffff100, 0x80)
                                }
                            }
                        } else {
                            if k < 158 {
                                if k < 157 {
                                    (151, 0x3ffff180, 0x80)
                                } else {
                                    (152, 0x3ffff200, 0x80)
                                }
                            } else {
                                if k < 159 {
                                    (155, 0x3ffff280, 0x80)
                                } else {
                                    (157, 0x3ffff300, 0x80)
                                }
                            }
                        }
                    }
                }
            } else {
                if k < 176 {
                    if k < 168 {
                        if k < 164 {
                            if k < 162 {
                                if k < 161 {
                                    (158, 0x3ffff380, 0x80)
                                } else {
                                    (165, 0x3ffff400, 0x80)
                                }
                            } else {
                                if k < 163 {
                                    (166, 0x3ffff480, 0x80)
                                } else {
                                    (168, 0x3ffff500, 0x80)
                                }
                            }
                        } else {
                            if k < 166 {
                                if k < 165 {
                                    (174, 0x3ffff580, 0x80)
                                } else {
                                    (175, 0x3ffff600, 0x80)
                                }
                            } else {
                                if k < 167 {
                                    (180, 0x3ffff680, 0x80)
                                } else {
                                    (182, 0x3ffff700, 0x80)
                                }
                            }
                        }
                    } else {
                        if k < 172 {
                            if k < 170 {
                                if k < 169 {
                                    (183, 0x3ffff780, 0x80)
                                } else {
                                    (188, 0x3ffff800, 0x80)
                                }
                            } else {
                                if k < 171 {
                                    (191, 0x3ffff880, 0x80)
                                } else {
                                    (197, 0x3ffff900, 0x80)
                                }
                            }
                        } else {
                            if k < 174 {
                                if k < 173 {
                                    (231, 0x3ffff980, 0x80)
                                } else {
                                    (239, 0x3ffffa00, 0x80)
                                }
                            } else {
                                if k < 175 {
                                    (9, 0x3ffffa80, 0x40)
                                } else {
                                    (142, 0x3ffffac0, 0x40)
                                }
                            }
                        }
                    }
                } else {
                    if k < 184 {
                        if k < 180 {
                            if k < 178 {
                                if k < 177 {
                                    (144, 0x3ffffb00, 0x40)
                                } else {
                                    (145, 0x3ffffb40, 0x40)
                                }
                            } else {
                                if k < 179 {
                                    (148, 0x3ffffb80, 0x40)
                                } else {
                                    (159, 0x3ffffbc0, 0x40)
                                }
                            }
                        } else {
                            if k < 182 {
                                if k < 181 {
                                    (171, 0x3ffffc00, 0x40)
                                } else {
                                    (206, 0x3ffffc40, 0x40)
                                }
                            } else {
                                if k < 183 {
                                    (215, 0x3ffffc80, 0x40)
                                } else {
                                    (225, 0x3ffffcc0, 0x40)
                                }
                            }
                        }
                    } else {
                        if k < 188 {
                            if k < 186 {
                                if k < 185 {
                                    (236, 0x3ffffd00, 0x40)
                                } else {
                                    (237, 0x3ffffd40, 0x40)
                                }
                            } else {
                                if k < 187 {
                                    (199, 0x3ffffd80, 0x20)
                                } else {
                                    (207, 0x3ffffda0, 0x20)
                                }
                            }
                        } else {
                            if k < 190 {
                                if k < 189 {
                                    (234, 0x3ffffdc0, 0x20)
                                } else {
                                    (235, 0x3ffffde0, 0x20)
                                }
                            } else {
                                if k < 191 {
                                    (192, 0x3ffffe00, 0x10)
                                } else {
                                    (193, 0x3ffffe10, 0x10)
                                }
                            }
                        }
                    }
                }
            }
        } else {
            if k < 224 {
                if k < 208 {
                    if k < 200 {
                        if k < 196 {
                            if k < 194 {
                                if k < 193 {
                                    (200, 0x3ffffe20, 0x10)
                                } else {
                                    (201, 0x3ffffe30, 0x10)
                                }
                            } else {
                                if k < 195 {
                                    (202, 0x3ffffe40, 0x10)
                                } else {
                                    (205, 0x3ffffe50, 0x10)
                                }
                            }
                        } else {
                            if k < 198 {
                                if k < 197 {
                                    (210, 0x3ffffe60, 0x10)
                                } else {
                                    (213, 0x3ffffe70, 0x10)
                                }
                            } else {
                                if k < 199 {
                                    (218, 0x3ffffe80, 0x10)
                                } else {
                                    (219, 0x3ffffe90, 0x10)
                                }
                            }
                        }
                    } else {
                        if k < 204 {
                            if k < 202 {
                                if k < 201 {
                                    (238, 0x3ffffea0, 0x10)
                                } else {
                                    (240, 0x3ffffeb0, 0x10)
                                }
                            } else {
                                if k < 203 {
                                    (242, 0x3ffffec0, 0x10)
                                } else {
                                    (243, 0x3ffffed0, 0x10)
                                }
                            }
                        } else {
                            if k < 206 {
                                if k < 205 {
                                    (255, 0x3ffffee0, 0x10)
                                } else {
                                    (203, 0x3ffffef0, 0x8)
                                }
                            } else {
                                if k < 207 {
                                    (204, 0x3ffffef8, 0x8)
                                } else {
                                    (211, 0x3fffff00, 0x8)
                                }
                            }
                        }
                    }
                } else {
                    if k < 216 {
                        if k < 212 {
                            if k < 210 {
                                if k < 209 {
                                    (212, 0x3fffff08, 0x8)
                                } else {
                                    (214, 0x3fffff10, 0x8)
                                }
                            } else {
                                if k < 211 {
                                    (221, 0x3fffff18, 0x8)
                                } else {
                                    (222, 0x3fffff20, 0x8)
                                }
                            }
                        } else {
                            if k < 214 {
                                if k < 213 {
                                    (223, 0x3fffff28, 0x8)
                                } else {
                                    (241, 0x3fffff30, 0x8)
                                }
                            } else {
                                if k < 215 {
                                    (244, 0x3fffff38, 0x8)
                                } else {
                                    (245, 0x3fffff40, 0x8)
                                }
                            }
                        }
                    } else {
                        if k < 220 {
                            if k < 218 {
                                if k < 217 {
                                    (246, 0x3fffff48, 0x8)
                                } else {
                                    (247, 0x3fffff50, 0x8)
                                }
                            } else {
                                if k < 219 {
                                    (248, 0x3fffff58, 0x8)
                                } else {
                                    (250, 0x3fffff60, 0x8)
                                }
                            }
                        } else {
                            if k < 222 {
                                if k < 221 {
                                    (251, 0x3fffff68, 0x8)
                                } else {
                                    (252, 0x3fffff70, 0x8)
                                }
                            } else {
                                if k < 223 {
                                    (253, 0x3fffff78, 0x8)
                                } else {
                                    (254, 0x3fffff80, 0x8)
                                }
                            }
                        }
                    }
                }
            } else {
                if k < 240 {
                    if k < 232 {
                        if k < 228 {
                            if k < 226 {
                                if k < 225 {
                                    (2, 0x3fffff88, 0x4)
                                } else {
                                    (3, 0x3fffff8c, 0x4)
                                }
                            } else {
                                if k < 227 {
                                    (4, 0x3fffff90, 0x4)
                                } else {
                                    (5, 0x3fffff94, 0x4)
                                }
                            }
                        } else {
                            if k < 230 {
                                if k < 229 {
                                    (6, 0x3fffff98, 0x4)
                                } else {
                                    (7, 0x3fffff9c, 0x4)
                                }
                            } else {
                                if k < 231 {
                                    (8, 0x3fffffa0, 0x4)
                                } else {
                                    (11, 0x3fffffa4, 0x4)
                                }
                            }
                        }
                    } else {
                        if k < 236 {
                            if k < 234 {
                                if k < 233 {
                                    (12, 0x3fffffa8, 0x4)
                                } else {
                                    (14, 0x3fffffac, 0x4)
                                }
                            } else {
                                if k < 235 {
                                    (15, 0x3fffffb0, 0x4)
                                } else {
                                    (16, 0x3fffffb4, 0x4)
                                }
                            }
                        } else {
                            if k < 238 {
                                if k < 237 {
                                    (17, 0x3fffffb8, 0x4)
                                } else {
                                    (18, 0x3fffffbc, 0x4)
                                }
                            } else {
                                if k < 239 {
                                    (19, 0x3fffffc0, 0x4)
                                } else {
                                    (20, 0x3fffffc4, 0x4)
                                }
                            }
                        }
                    }
                } else {
                    if k < 248 {
                        if k < 244 {
                            if k < 242 {
                                if k < 241 {
                                    (21, 0x3fffffc8, 0x4)
                                } else {
                                    (23, 0x3fffffcc, 0x4)
                                }
                            } else {
                                if k < 243 {
                                    (24, 0x3fffffd0, 0x4)
                                } else {
                                    (25, 0x3fffffd4, 0x4)
                                }
                            }
                        } else {
                            if k < 246 {
                                if k < 245 {
                                    (26, 0x3fffffd8, 0x4)
                                } else {
                                    (27, 0x3fffffdc, 0x4)
                                }
                            } else {
                                if k < 247 {
                                    (28, 0x3fffffe0, 0x4)
                                } else {
                                    (29, 0x3fffffe4, 0x4)
                                }
                            }
                        }
                    } else {
                        if k < 252 {
                            if k < 250 {
                                if k < 249 {
                                    (30, 0x3fffffe8, 0x4)
                                } else {
                                    (31, 0x3fffffec, 0x4)
                                }
                            } else {
                                if k < 251 {
                                    (127, 0x3ffffff0, 0x4)
                                } else {
                                    (220, 0x3ffffff4, 0x4)
                                }
                            }
                        } else {
                            if k < 254 {
                                if k < 253 {
                                    (249, 0x3ffffff8, 0x4)
                                } else {
                                    (10, 0x3ffffffc, 0x1)
                                }
                            } else {
                                if k < 255 {
                                    (13, 0x3ffffffd, 0x1)
                                } else {
                                    if k < 256 {
                                        (22, 0x3ffffffe, 0x1)
                                    } else {
                                        (256, 0x3fffffff, 0x1)
                                    }
                                }
                            }
                        }
                    }
                }
            }
        }
    }
}

/// Position of symbol `s` in canonical order.
pub open spec fn canonical_rank(s: int) -> int {
    if s < 128 {
        if s < 64 {
            if s < 32 {
                if s < 16 {
                    if s < 8 {
                        if s < 4 {
                            if s < 2 {
                                if s < 1 {
                                    84
                                } else {
                                    145
                                }
                            } else {
                                if s < 3 {
                                    224
                                } else {
                                    225
                                }
                            }
                        } else {
                            if s < 6 {
                                if s < 5 {
                                    226
                                } else {
                                    227
                                }
                            } else {
                                if s < 7 {
                                    228
                                } else {
                                    229
                                }
                            }
                        }
                    } else {
                        if s < 12 {
                            if s < 10 {
                                if s < 9 {
                                    230
                                } else {
                                    174
                                }
                            } else {
                                if s < 11 {
                                    253
                                } else {
                                    231
                                }
                            }
                        } else {
                            if s < 14 {
                                if s < 13 {
                                    232
                                } else {
                                    254
                                }
                            } else {
                                if s < 15 {
                                    233
                                } else {
                                    234
                                }
                            }
                        }
                    }
                } else {
                    if s < 24 {
                        if s < 20 {
                            if s < 18 {
                                if s < 17 {
                                    235
                                } else {
                                    236
                                }
                            } else {
                                if s < 19 {
                                    237
                                } else {
                                    238
                                }
                            }
                        } else {
                            if s < 22 {
                                if s < 21 {
                                    239
                                } else {
                                    240
                                }
                            } else {
                                if s < 23 {
                                    255
                                } else {
                                    241
                                }
                            }
                        }
                    } else {
                        if s < 28 {
                            if s < 26 {
                                if s < 25 {
                                    242
                                } else {
                                    243
                                }
                            } else {
                                if s < 27 {
                                    244
                                } else {
                                    245
                                }
                            }
                        } else {
                            if s < 30 {
                                if s < 29 {
                                    246
                                } else {
                                    247
                                }
                            } else {
                                if s < 31 {
                                    248
                                } else {
                                    249
                                }
                            }
                        }
                    }
                }
            } else {
                if s < 48 {
                    if s < 40 {
                        if s < 36 {
                            if s < 34 {
                                if s < 33 {
                                    10
                                } else {
                                    74
                                }
                            } else {
                                if s < 35 {
                                    75
                                } else {
                                    82
                                }
                            }
                        } else {
                            if s < 38 {
                                if s < 37 {
                                    85
                                } else {
                                    11
                                }
                            } else {
                                if s < 39 {
                                    68
                                } else {
                                    79
                                }
                            }
                        }
                    } else {
                        if s < 44 {
                            if s < 42 {
                                if s < 41 {
                                    76
                                } else {
                                    77
                                }
                            } else {
                                if s < 43 {
                                    69
                                } else {
                                    80
                                }
                            }
                        } else {
                            if s < 46 {
                                if s < 45 {
                                    70
                                } else {
                                    12
                                }
                            } else {
                                if s < 47 {
                                    13
                                } else {
                                    14
                                }
                            }
                        }
                    }
                } else {
                    if s < 56 {
                        if s < 52 {
                            if s < 50 {
                                if s < 49 {
                                    0
                                } else {
                                    1
                                }
                            } else {
                                if s < 51 {
                                    2
                                } else {
                                    15
                                }
                            }
                        } else {
                            if s < 54 {
                                if s < 53 {
                                    16
                                } else {
                                    17
                                }
                            } else {
                                if s < 55 {
                                    18
                                } else {
                                    19
                                }
                            }
                        }
                    } else {
                        if s < 60 {
                            if s < 58 {
                                if s < 57 {
                                    20
                                } else {
                                    21
                                }
                            } else {
                                if s < 59 {
                                    36
                                } else {
                                    71
                                }
                            }
                        } else {
                            if s < 62 {
                                if s < 61 {
                                    92
                                } else {
                                    22
                                }
                            } else {
                                if s < 63 {
                                    83
                                } else {
                                    78
                                }
                            }
                        }
                    }
                }
            }
        } else {
            if s < 96 {
                if s < 80 {
                    if s < 72 {
                        if s < 68 {
                            if s < 66 {
                                if s < 65 {
                                    86
                                } else {
                                    23
                                }
                            } else {
                                if s < 67 {
                                    37
                                } else {
                                    38
                                }
                            }
                        } else {
                            if s < 70 {
                                if s < 69 {
                                    39
                                } else {
                                    40
                                }
                            } else {
                                if s < 71 {
                                    41
                                } else {
                                    42
                                }
                            }
                        }
                    } else {
                        if s < 76 {
                            if s < 74 {
                                if s < 73 {
                                    43
                                } else {
                                    44
                                }
                            } else {
                                if s < 75 {
                                    45
                                } else {
                                    46
                                }
                            }
                        } else {
                            if s < 78 {
                                if s < 77 {
                                    47
                                } else {
                                    48
                                }
                            } else {
                                if s < 79 {
                                    49
                                } else {
                                    50
                                }
                            }
                        }
                    }
                } else {
                    if s < 88 {
                        if s < 84 {
                            if s < 82 {
                                if s < 81 {
                                    51
                                } else {
                                    52
                                }
                            } else {
                                if s < 83 {
                                    53
                                } else {
                                    54
                                }
                            }
                        } else {
                            if s < 86 {
                                if s < 85 {
                                    55
                                } else {
                                    56
                                }
                            } else {
                                if s < 87 {
                                    57
                                } else {
                                    58
                                }
                            }
                        }
                    } else {
                        if s < 92 {
                            if s < 90 {
                                if s < 89 {
                                    72
                                } else {
                                    59
                                }
                            } else {
                                if s < 91 {
                                    73
                                } else {
                                    87
                                }
                            }
                        } else {
                            if s < 94 {
                                if s < 93 {
                                    95
                                } else {
                                    88
                                }
                            } else {
                                if s < 95 {
                                    90
                                } else {
                                    24
                                }
                            }
                        }
                    }
                }
            } else {
                if s < 112 {
                    if s < 104 {
                        if s < 100 {
                            if s < 98 {
                                if s < 97 {
                                    93
                                } else {
                                    3
                                }
                            } else {
                                if s < 99 {
                                    25
                                } else {
                                    4
                                }
                            }
                        } else {
                            if s < 102 {
                                if s < 101 {
                                    26
                                } else {
                                    5
                                }
                            } else {
                                if s < 103 {
                                    27
                                } else {
                                    28
                                }
                            }
                        }
                    } else {
                        if s < 108 {
                            if s < 106 {
                                if s < 105 {
                                    29
                                } else {
                                    6
                                }
                            } else {
                                if s < 107 {
                                    60
                                } else {
                                    61
                                }
                            }
                        } else {
                            if s < 110 {
                                if s < 109 {
                                    30
                                } else {
                                    31
                                }
                            } else {
                                if s < 111 {
                                    32
                                } else {
                                    7
                                }
                            }
                        }
                    }
                } else {
                    if s < 120 {
                        if s < 116 {
                            if s < 114 {
                                if s < 113 {
                                    33
                                } else {
                                    62
                                }
                            } else {
                                if s < 115 {
                                    34
                                } else {
                                    8
                                }
                            }
                        } else {
                            if s < 118 {
                                if s < 117 {
                                    9
                                } else {
                                    35
                                }
                            } else {
                                if s < 119 {
                                    63
                                } else {
                                    64
                                }
                            }
                        }
                    } else {
                        if s < 124 {
                            if s < 122 {
                                if s < 121 {
                                    65
                                } else {
                                    66
                                }
                            } else {
                                if s < 123 {
                                    67
                                } else {
                                    94
                                }
                            }
                        } else {
                            if s < 126 {
                                if s < 125 {
                                    81
                                } else {
                                    91
                                }
                            } else {
                                if s < 127 {
                                    89
                                } else {
                                    250
                                }
                            }
                        }
                    }
                }
            }
        }
    } else {
        if s < 192 {
            if s < 160 {
                if s < 144 {
                    if s < 136 {
                        if s < 132 {
                            if s < 130 {
                                if s < 129 {
                                    98
                                } else {
                                    119
                                }
                            } else {
                                if s < 131 {
                                    99
                                } else {
                                    100
                                }
                            }
                        } else {
                            if s < 134 {
                                if s < 133 {
                                    120
                                } else {
                                    121
                                }
                            } else {
                                if s < 135 {
                                    122
                                } else {
                                    146
                                }
                            }
                        }
                    } else {
                        if s < 140 {
                            if s < 138 {
                                if s < 137 {
                                    123
                                } else {
                                    147
                                }
                            } else {
                                if s < 139 {
                                    148
                                } else {
                                    149
                                }
                            }
                        } else {
                            if s < 142 {
                                if s < 141 {
                                    150
                                } else {
                                    151
                                }
                            } else {
                                if s < 143 {
                                    175
                                } else {
                                    152
                                }
                            }
                        }
                    }
                } else {
                    if s < 152 {
                        if s < 148 {
                            if s < 146 {
                                if s < 145 {
                                    176
                                } else {
                                    177
                                }
                            } else {
                                if s < 147 {
                                    124
                                } else {
                                    153
                                }
                            }
                        } else {
                            if s < 150 {
                                if s < 149 {
                                    178
                                } else {
                                    154
                                }
                            } else {
                                if s < 151 {
                                    155
                                } else {
                                    156
                                }
                            }
                        }
                    } else {
                        if s < 156 {
                            if s < 154 {
                                if s < 153 {
                                    157
                                } else {
                                    106
                                }
                            } else {
                                if s < 155 {
                                    125
                                } else {
                                    158
                                }
                            }
                        } else {
                            if s < 158 {
                                if s < 157 {
                                    126
                                } else {
                                    159
                                }
                            } else {
                                if s < 159 {
                                    160
                                } else {
                                    179
                                }
                            }
                        }
                    }
                }
            } else {
                if s < 176 {
                    if s < 168 {
                        if s < 164 {
                            if s < 162 {
                                if s < 161 {
                                    127
                                } else {
                                    107
                                }
                            } else {
                                if s < 163 {
                                    101
                                } else {
                                    128
                                }
                            }
                        } else {
                            if s < 166 {
                                if s < 165 {
                                    129
                                } else {
                                    161
                                }
                            } else {
                                if s < 167 {
                                    162
                                } else {
                                    108
                                }
                            }
                        }
                    } else {
                        if s < 172 {
                            if s < 170 {
                                if s < 169 {
                                    163
                                } else {
                                    130
                                }
                            } else {
                                if s < 171 {
                                    131
                                } else {
                                    180
                                }
                            }
                        } else {
                            if s < 174 {
                                if s < 173 {
                                    109
                                } else {
                                    132
                                }
                            } else {
                                if s < 175 {
                                    164
                                } else {
                                    165
                                }
                            }
                        }
                    }
                } else {
                    if s < 184 {
                        if s < 180 {
                            if s < 178 {
                                if s < 177 {
                                    110
                                } else {
                                    111
                                }
                            } else {
                                if s < 179 {
                                    133
                                } else {
                                    112
                                }
                            }
                        } else {
                            if s < 182 {
                                if s < 181 {
                                    166
                                } else {
                                    134
                                }
                            } else {
                                if s < 183 {
                                    167
                                } else {
                                    168
                                }
                            }
                        }
                    } else {
                        if s < 188 {
                            if s < 186 {
                                if s < 185 {
                                    102
                                } else {
                                    135
                                }
                            } else {
                                if s < 187 {
                                    136
                                } else {
                                    137
                                }
                            }
                        } else {
                            if s < 190 {
                                if s < 189 {
                                    169
                                } else {
                                    138
                                }
                            } else {
                                if s < 191 {
                                    139
                                } else {
                                    170
                                }
                            }
                        }
                    }
                }
            }
        } else {
            if s < 224 {
                if s < 208 {
                    if s < 200 {
                        if s < 196 {
                            if s < 194 {
                                if s < 193 {
                                    190
                                } else {
                                    191
                                }
                            } else {
                                if s < 195 {
                                    103
                                } else {
                                    96
                                }
                            }
                        } else {
                            if s < 198 {
                                if s < 197 {
                                    140
                                } else {
                                    171
                                }
                            } else {
                                if s < 199 {
                                    141
                                } else {
                                    186
                                }
                            }
                        }
                    } else {
                        if s < 204 {
                            if s < 202 {
                                if s < 201 {
                                    192
                                } else {
                                    193
                                }
                            } else {
                                if s < 203 {
                                    194
                                } else {
                                    205
                                }
                            }
                        } else {
                            if s < 206 {
                                if s < 205 {
                                    206
                                } else {
                                    195
                                }
                            } else {
                                if s < 207 {
                                    181
                                } else {
                                    187
                                }
                            }
                        }
                    }
                } else {
                    if s < 216 {
                        if s < 212 {
                            if s < 210 {
                                if s < 209 {
                                    97
                                } else {
                                    113
                                }
                            } else {
                                if s < 211 {
                                    196
                                } else {
                                    207
                                }
                            }
                        } else {
                            if s < 214 {
                                if s < 213 {
                                    208
                                } else {
                                    197
                                }
                            } else {
                                if s < 215 {
                                    209
                                } else {
                                    182
                                }
                            }
                        }
                    } else {
                        if s < 220 {
                            if s < 218 {
                                if s < 217 {
                                    114
                                } else {
                                    115
                                }
                            } else {
                                if s < 219 {
                                    198
                                } else {
                                    199
                                }
                            }
                        } else {
                            if s < 222 {
                                if s < 221 {
                                    251
                                } else {
                                    210
                                }
                            } else {
                                if s < 223 {
                                    211
                                } else {
                                    212
                                }
                            }
                        }
                    }
                }
            } else {
                if s < 240 {
                    if s < 232 {
                        if s < 228 {
                            if s < 226 {
                                if s < 225 {
                                    104
                                } else {
                                    183
                                }
                            } else {
                                if s < 227 {
                                    105
                                } else {
                                    116
                                }
                            }
                        } else {
                            if s < 230 {
                                if s < 229 {
                                    142
                                } else {
                                    117
                                }
                            } else {
                                if s < 231 {
                                    118
                                } else {
                                    172
                                }
                            }
                        }
                    } else {
                        if s < 236 {
                            if s < 234 {
                                if s < 233 {
                                    143
                                } else {
                                    144
                                }
                            } else {
                                if s < 235 {
                                    188
                                } else {
                                    189
                                }
                            }
                        } else {
                            if s < 238 {
                                if s < 237 {
                                    184
                                } else {
                                    185
                                }
                            } else {
                                if s < 239 {
                                    200
                                } else {
                                    173
                                }
                            }
                        }
                    }
                } else {
                    if s < 248 {
                        if s < 244 {
                            if s < 242 {
                                if s < 241 {
                                    201
                                } else {
                                    213
                                }
                            } else {
                                if s < 243 {
                                    202
                                } else {
                                    203
                                }
                            }
                        } else {
                            if s < 246 {
                                if s < 245 {
                                    214
                                } else {
                                    215
                                }
                            } else {
                                if s < 247 {
                                    216
                                } else {
                                    217
                                }
                            }
                        }
                    } else {
                        if s < 252 {
                            if s < 250 {
                                if s < 249 {
                                    218
                                } else {
                                    252
                                }
                            } else {
                                if s < 251 {
                                    219
                                } else {
                                    220
                                }
                            }
                        } else {
                            if s < 254 {
                                if s < 253 {
                                    221
                                } else {
                                    222
                                }
                            } else {
                                if s < 255 {
                                    223
                                } else {
                                    if s < 256 {
                                        204
                                    } else {
                                        256
                                    }
                                }
                            }
                        }
                    }
                }
            }
        }
    }
}

#[verifier::rlimit(100)]
proof fn lemma_canonical_entry(k: int)
    requires
        0 <= k <= 256,
    ensures
        0 <= canonical(k).0 <= 256,
        canonical(k).2 == pow2((30 - code_len(canonical(k).0)) as nat),
        canonical(k).1 == code_val(canonical(k).0) * canonical(k).2,
{
    lemma2_to64();
    lemma_canonical_start(k);
}

#[verifier::rlimit(100)]
proof fn lemma_canonical_start(k: int)
    requires
        0 <= k <= 256,
    ensures
        canonical(k).1 == code_val(canonical(k).0) * canonical(k).2,
{
}

#[verifier::rlimit(100)]
proof fn lemma_canonical_step(k: int)
    requires
        0 <= k < 256,
    ensures
        canonical(k).1 + canonical(k).2 == canonical(k + 1).1,
{
}

#[verifier::rlimit(100)]
proof fn lemma_canonical_rank(s: int)
    requires
        0 <= s <= 256,
    ensures
        0 <= canonical_rank(s) <= 256,
        canonical(canonical_rank(s)).0 == s,
{
}

proof fn lemma_canonical_order(k1: int, k2: int)
    requires
        0 <= k1 < k2 <= 256,
    ensures
        canonical(k1).1 + canonical(k1).2 <= canonical(k2).1,
    decreases k2 - k1,
{
    lemma_canonical_step(k1);
    if k1 + 1 < k2 {
        lemma_canonical_order(k1 + 1, k2);
        lemma_canonical_entry(k1 + 1);
    }
}

/// The code is prefix-free: no code is the start of another one.
pub proof fn lemma_prefix_free(s: int, t: int)
    requires
        0 <= s <= 256,
        0 <= t <= 256,
        s != t,
        code_len(s) <= code_len(t),
    ensures
        code_val(t) / pow2((code_len(t) - code_len(s)) as nat) != code_val(s),
{
    let ls = code_len(s);
    let lt = code_len(t);
    lemma_code_bounds(s);
    lemma_code_bounds(t);
    let ks = canonical_rank(s);
    let kt = canonical_rank(t);
    lemma_canonical_rank(s);
    lemma_canonical_rank(t);
    lemma_canonical_entry(ks);
    lemma_canonical_entry(kt);
    let d = pow2((lt - ls) as nat);
    let ut = pow2((30 - lt) as nat);
    let us = pow2((30 - ls) as nat);
    lemma_pow2_adds((lt - ls) as nat, (30 - lt) as nat);
    lemma_pow2_pos((lt - ls) as nat);
    lemma_pow2_pos((30 - lt) as nat);
    assert(us == d * ut);
    if code_val(t) / d == code_val(s) {
        let r = code_val(t) % d;
        lemma_fundamental_div_mod(code_val(t) as int, d as int);
        lemma_mod_bound(code_val(t) as int, d as int);
        let cs = code_val(s);
        let ct = code_val(t);
        assert(ct * ut == cs * us + r * ut && r * ut < us) by (nonlinear_arith)
            requires
                ct == d * cs + r,
                us == d * ut,
                0 <= r < d,
                ut > 0,
        ;
        if ks < kt {
            lemma_canonical_order(ks, kt);
        } else {
            lemma_canonical_order(kt, ks);
        }
    }
}

} // verus!
